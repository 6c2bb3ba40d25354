//! The acceleration engine: how far one event moves the pointer (or turns
//! the wheel), as a function of the number of events already sent since the
//! key went down.
//!
//! The first event moves by `unit_delta`. After `ticks_to_max` events the
//! speed is steady at `unit_delta * max_speed`. In between, the speed eases
//! in along a power ramp,
//!
//! ```text
//! floor(unit_delta * max_speed * (n / ticks_to_max) ^ ((1000 + curve_exponent) / 1000))
//! ```
//!
//! and no event ever moves by less than 1. The ramp is computed in integers
//! and is exact: with the exponent written as a fraction `num / den` in
//! lowest terms, the value is the greatest `v` with
//! `v^den * ticks_to_max^num <= (unit_delta * max_speed)^den * n^num`.

use crate::arith::{checked_pow, gcd, gcd_u32, lemma_gcd_divides, lemma_mul_le, lemma_pow_base_le, lemma_pow_base_lt};
use vstd::arithmetic::div_mod::{lemma_fundamental_div_mod, lemma_small_mod};
use vstd::arithmetic::power::{lemma0_pow, lemma_pow_distributes, lemma_pow_multiplies, lemma_pow_positive, pow};
use vstd::prelude::*;

verus! {

/// The parameters of one acceleration curve.
#[derive(Clone, Copy, Debug, PartialEq, Eq)]
pub struct CurveConfig {
    /// Magnitude of the first event, and the unit that the ramp is measured
    /// in.
    pub unit_delta: u32,
    /// The steady speed, in units of `unit_delta`.
    pub max_speed: u32,
    /// The number of events over which the speed rises to the steady speed.
    pub ticks_to_max: u64,
    /// Convexity of the ramp, in thousandths: the ramp's exponent is
    /// `(1000 + curve_exponent) / 1000`.
    pub curve_exponent: i32,
    /// Microseconds between two events while a key stays down.
    pub tick_interval: u64,
    /// Microseconds that a key must have been down before its first event.
    pub activation_delay: u64,
}

/// `x`, but at least 1.
pub open spec fn at_least_one(x: int) -> int {
    if x < 1 {
        1
    } else {
        x
    }
}

impl CurveConfig {
    /// The steady magnitude, `unit_delta * max_speed`.
    pub open spec fn peak(self) -> nat {
        (self.unit_delta as nat) * (self.max_speed as nat)
    }

    /// The ramp's exponent in thousandths, `1000 + curve_exponent`.
    pub open spec fn exponent_thousandths(self) -> nat {
        if self.curve_exponent >= -1000 {
            (1000 + self.curve_exponent) as nat
        } else {
            0
        }
    }

    /// Numerator of the ramp's exponent in lowest terms.
    pub open spec fn exponent_num(self) -> nat {
        self.exponent_thousandths() / gcd(self.exponent_thousandths(), 1000)
    }

    /// Denominator of the ramp's exponent in lowest terms.
    pub open spec fn exponent_den(self) -> nat {
        1000nat / gcd(self.exponent_thousandths(), 1000)
    }

    /// Whether `v <= peak * (n / ticks_to_max) ^ (num / den)`, with both
    /// sides raised to the power `den` and cleared of fractions.
    pub open spec fn within_ramp(self, n: nat, v: nat) -> bool {
        pow(v as int, self.exponent_den()) * pow(self.ticks_to_max as int, self.exponent_num())
            <= pow(self.peak() as int, self.exponent_den()) * pow(n as int, self.exponent_num())
    }

    /// Whether `v` is the ramp's value at `n`, rounded down: `v` is within
    /// the ramp and `v + 1` is not.
    pub open spec fn is_ramp(self, n: nat, v: nat) -> bool {
        self.within_ramp(n, v) && !self.within_ramp(n, v + 1)
    }

    /// `floor(peak * (n / ticks_to_max) ^ (num / den))`.
    pub open spec fn ramp(self, n: nat) -> nat {
        choose|v: nat| self.is_ramp(n, v)
    }

    /// The magnitude of the event that follows `n` earlier ones.
    pub open spec fn curve(self, n: nat) -> int {
        at_least_one(
            if n == 0 {
                self.unit_delta as int
            } else if n >= self.ticks_to_max {
                self.peak() as int
            } else {
                self.ramp(n) as int
            },
        )
    }

    /// A configuration is well formed when the ramp is defined and every
    /// magnitude, and every product that computing one takes, fits the
    /// machine: `ticks_to_max` is positive, `curve_exponent` is at least
    /// -1000, `unit_delta` and `unit_delta * max_speed` fit in `i32`, and
    /// `peak^den * ticks_to_max^num` fits in `u128`.
    pub open spec fn wf(self) -> bool {
        &&& self.ticks_to_max >= 1
        &&& self.curve_exponent >= -1000
        &&& self.unit_delta <= i32::MAX
        &&& self.peak() <= i32::MAX
        &&& pow(self.peak() as int, self.exponent_den()) * pow(
            self.ticks_to_max as int,
            self.exponent_num(),
        ) <= u128::MAX
    }

    /// `num / den` is the fraction `(1000 + curve_exponent) / 1000`.
    pub proof fn lemma_exponent(self)
        ensures
            self.exponent_den() >= 1,
            self.exponent_num() * 1000 == self.exponent_den() * self.exponent_thousandths(),
            self.curve_exponent >= -1000 ==> self.exponent_thousandths() == 1000
                + self.curve_exponent,
    {
        let p = self.exponent_thousandths();
        let g = gcd(p, 1000);
        lemma_gcd_divides(p, 1000);
        if g > 1000 {
            lemma_small_mod(1000, g);
        }
        lemma_fundamental_div_mod(p as int, g as int);
        lemma_fundamental_div_mod(1000, g as int);
        let num = p as int / g as int;
        let den = 1000int / g as int;
        assert(den >= 1 && num * 1000 == den * p) by (nonlinear_arith)
            requires
                1 <= g <= 1000,
                p == g * num,
                1000 == g * den,
        ;
    }

    /// `within_ramp` says what it would say with the exponent left as
    /// `(1000 + curve_exponent) / 1000`: to write the fraction in lowest
    /// terms changes no value of the ramp.
    pub proof fn lemma_within_ramp_thousandths(self, n: nat, v: nat)
        requires
            self.curve_exponent >= -1000,
        ensures
            self.within_ramp(n, v) <==> pow(v as int, 1000) * pow(
                self.ticks_to_max as int,
                (1000 + self.curve_exponent) as nat,
            ) <= pow(self.peak() as int, 1000) * pow(n as int, (1000 + self.curve_exponent) as nat),
    {
        let p = self.exponent_thousandths();
        let g = gcd(p, 1000);
        let num = self.exponent_num();
        let den = self.exponent_den();
        lemma_gcd_divides(p, 1000);
        lemma_fundamental_div_mod(p as int, g as int);
        lemma_fundamental_div_mod(1000, g as int);
        assert(num * g == p && den * g == 1000) by (nonlinear_arith)
            requires
                p == g * num,
                1000 == g * den,
        ;
        let t = self.ticks_to_max as int;
        let a = self.peak() as int;
        lemma_pow_base_le(0, v, den);
        lemma_pow_base_le(0, self.ticks_to_max as nat, num);
        lemma_pow_base_le(0, self.peak(), den);
        lemma_pow_base_le(0, n, num);
        lemma_mul_le(0, pow(v as int, den), 0, pow(t, num));
        lemma_mul_le(0, pow(a, den), 0, pow(n as int, num));
        let x = (pow(v as int, den) * pow(t, num)) as nat;
        let y = (pow(a, den) * pow(n as int, num)) as nat;
        assert(pow(x as int, g) == pow(v as int, 1000) * pow(t, p)) by {
            lemma_pow_distributes(pow(v as int, den), pow(t, num), g);
            lemma_pow_multiplies(v as int, den, g);
            lemma_pow_multiplies(t, num, g);
        }
        assert(pow(y as int, g) == pow(a, 1000) * pow(n as int, p)) by {
            lemma_pow_distributes(pow(a, den), pow(n as int, num), g);
            lemma_pow_multiplies(a, den, g);
            lemma_pow_multiplies(n as int, num, g);
        }
        if x <= y {
            lemma_pow_base_le(x, y, g);
        } else {
            lemma_pow_base_lt(y, x, g);
        }
    }

    /// What is within the ramp stays within it for every smaller value.
    pub proof fn lemma_within_ramp_below(self, n: nat, v: nat, w: nat)
        requires
            v <= w,
            self.within_ramp(n, w),
        ensures
            self.within_ramp(n, v),
    {
        let t = pow(self.ticks_to_max as int, self.exponent_num());
        lemma_pow_base_le(v, w, self.exponent_den());
        lemma_pow_base_le(0, self.ticks_to_max as nat, self.exponent_num());
        lemma_mul_le(pow(v as int, self.exponent_den()), pow(w as int, self.exponent_den()), t, t);
    }

    /// What is within the ramp at one count is within it at every later one.
    pub proof fn lemma_within_ramp_later(self, n: nat, m: nat, v: nat)
        requires
            n <= m,
            self.within_ramp(n, v),
        ensures
            self.within_ramp(m, v),
    {
        let p = pow(self.peak() as int, self.exponent_den());
        lemma_pow_base_le(n, m, self.exponent_num());
        lemma_pow_base_le(0, self.peak(), self.exponent_den());
        lemma_mul_le(p, p, pow(n as int, self.exponent_num()), pow(m as int, self.exponent_num()));
    }

    /// Zero is within every ramp.
    pub proof fn lemma_zero_within_ramp(self, n: nat)
        ensures
            self.within_ramp(n, 0),
    {
        self.lemma_exponent();
        lemma0_pow(self.exponent_den());
        lemma_pow_base_le(0, self.peak(), self.exponent_den());
        lemma_pow_base_le(0, n, self.exponent_num());
        lemma_mul_le(
            0,
            pow(self.peak() as int, self.exponent_den()),
            0,
            pow(n as int, self.exponent_num()),
        );
        assert(0 * pow(self.ticks_to_max as int, self.exponent_num()) == 0);
    }

    /// Up to `ticks_to_max`, the ramp stays at or under the peak.
    pub proof fn lemma_above_peak(self, n: nat)
        requires
            self.ticks_to_max >= 1,
            n <= self.ticks_to_max,
        ensures
            !self.within_ramp(n, self.peak() + 1),
    {
        self.lemma_exponent();
        let den = self.exponent_den();
        let num = self.exponent_num();
        let over = pow((self.peak() + 1) as int, den);
        let top = pow(self.peak() as int, den);
        let t = pow(self.ticks_to_max as int, num);
        let r = pow(n as int, num);
        lemma_pow_base_lt(self.peak(), self.peak() + 1, den);
        lemma_pow_base_le(0, self.peak(), den);
        lemma_pow_base_le(n, self.ticks_to_max as nat, num);
        lemma_pow_positive(self.ticks_to_max as int, num);
        assert(over * t > top * r) by (nonlinear_arith)
            requires
                over >= top + 1,
                top >= 0,
                t >= r,
                r >= 0,
                t >= 1,
        ;
    }

    /// Walks up from a value within the ramp to the ramp's value.
    proof fn lemma_ramp_from(self, n: nat, v: nat) -> (w: nat)
        requires
            self.ticks_to_max >= 1,
            n <= self.ticks_to_max,
            self.within_ramp(n, v),
        ensures
            self.is_ramp(n, w),
            v <= w <= self.peak(),
        decreases self.peak() + 1 - v,
    {
        self.lemma_above_peak(n);
        if v > self.peak() {
            self.lemma_within_ramp_below(n, self.peak() + 1, v);
        }
        if self.within_ramp(n, v + 1) {
            if v + 1 > self.peak() {
                self.lemma_within_ramp_below(n, self.peak() + 1, v + 1);
            }
            self.lemma_ramp_from(n, v + 1)
        } else {
            v
        }
    }

    /// Only one value is the ramp's value at `n`.
    pub proof fn lemma_ramp_unique(self, n: nat, v: nat)
        requires
            self.is_ramp(n, v),
        ensures
            self.ramp(n) == v,
    {
        let w = self.ramp(n);
        assert(self.is_ramp(n, w));
        if w < v {
            self.lemma_within_ramp_below(n, w + 1, v);
        }
        if v < w {
            self.lemma_within_ramp_below(n, v + 1, w);
        }
    }

    /// With the exponent 3/2, `v` is the ramp's value at `n` where
    /// `v^2 * ticks_to_max^3 <= peak^2 * n^3 < (v + 1)^2 * ticks_to_max^3`.
    pub proof fn lemma_ramp_three_halves(self, n: nat, v: nat)
        requires
            self.exponent_num() == 3,
            self.exponent_den() == 2,
            v * v * (self.ticks_to_max * self.ticks_to_max * self.ticks_to_max) <= self.peak()
                * self.peak() * (n * n * n),
            self.peak() * self.peak() * (n * n * n) < (v + 1) * (v + 1) * (self.ticks_to_max
                * self.ticks_to_max * self.ticks_to_max),
        ensures
            self.ramp(n) == v,
    {
        reveal_with_fuel(pow, 4);
        let t = self.ticks_to_max as int;
        let a = self.peak() as int;
        assert(pow(v as int, 2) == v * v && pow((v + 1) as int, 2) == (v + 1) * (v + 1) && pow(a, 2)
            == a * a) by (nonlinear_arith)
            requires
                pow(v as int, 2) == v * (v * 1),
                pow((v + 1) as int, 2) == (v + 1) * ((v + 1) * 1),
                pow(a, 2) == a * (a * 1),
        ;
        assert(pow(t, 3) == t * t * t && pow(n as int, 3) == n * n * n) by (nonlinear_arith)
            requires
                pow(t, 3) == t * (t * (t * 1)),
                pow(n as int, 3) == n * (n * (n * 1)),
        ;
        self.lemma_ramp_unique(n, v);
    }

    /// Up to `ticks_to_max` the ramp has a value, and it is at most the
    /// peak.
    pub proof fn lemma_ramp_defined(self, n: nat)
        requires
            self.ticks_to_max >= 1,
            n <= self.ticks_to_max,
        ensures
            self.is_ramp(n, self.ramp(n)),
            self.ramp(n) <= self.peak(),
    {
        self.lemma_zero_within_ramp(n);
        let w = self.lemma_ramp_from(n, 0);
        self.lemma_ramp_unique(n, w);
    }

    /// No event moves by less than 1.
    pub proof fn curve_positive(self, n: nat)
        ensures
            self.curve(n) >= 1,
    {
    }

    /// From `ticks_to_max` on, the magnitude stays what it is there.
    pub proof fn curve_flat_cap(self, k: nat)
        requires
            self.wf(),
        ensures
            self.curve(self.ticks_to_max as nat + k) == self.curve(self.ticks_to_max as nat),
    {
    }

    /// Up to `ticks_to_max`, the magnitude never falls from one event to the
    /// next. The step from the first event to the second is left out where
    /// it falls: the first event moves by `unit_delta`, whatever the ramp
    /// gives for the second.
    pub proof fn curve_monotone(self, n: nat)
        requires
            self.wf(),
            n < self.ticks_to_max,
            n >= 1 || self.curve(0) <= self.curve(1),
        ensures
            self.curve(n) <= self.curve(n + 1),
    {
        if n >= 1 {
            self.lemma_ramp_defined(n);
            if n + 1 < self.ticks_to_max {
                self.lemma_ramp_defined(n + 1);
                self.lemma_within_ramp_later(n, n + 1, self.ramp(n));
                if self.ramp(n + 1) < self.ramp(n) {
                    self.lemma_within_ramp_below(n + 1, self.ramp(n + 1) + 1, self.ramp(n));
                }
            }
        }
    }

    /// The second event moves by at least as much as the first exactly when
    /// `unit_delta` is at most 1 or is within the ramp at 1 (or the ramp has
    /// a single step, which ends at the peak).
    pub proof fn curve_first_step(self)
        requires
            self.wf(),
        ensures
            self.curve(0) <= self.curve(1) <==> (self.unit_delta <= 1 || if self.ticks_to_max == 1 {
                self.unit_delta <= self.peak()
            } else {
                self.within_ramp(1, self.unit_delta as nat)
            }),
    {
        if self.ticks_to_max > 1 {
            self.lemma_ramp_defined(1);
            let u = self.unit_delta as nat;
            if self.within_ramp(1, u) {
                if self.ramp(1) < u {
                    self.lemma_within_ramp_below(1, self.ramp(1) + 1, u);
                }
            } else if u <= self.ramp(1) {
                self.lemma_within_ramp_below(1, u, self.ramp(1));
            }
        }
    }

    /// `unit_delta * max_speed`, the steady magnitude.
    pub fn steady(&self) -> (peak: u64)
        ensures
            peak == self.peak(),
    {
        assert(self.unit_delta * self.max_speed <= 0xffff_ffff * 0xffff_ffff) by (nonlinear_arith)
            requires
                0 <= self.unit_delta <= 0xffff_ffff,
                0 <= self.max_speed <= 0xffff_ffff,
        ;
        self.unit_delta as u64 * self.max_speed as u64
    }

    /// The ramp's exponent as a fraction in lowest terms, numerator first.
    /// Where `curve_exponent` is under -1000, the exponent counts as zero.
    pub fn exponent(&self) -> (fraction: (u32, u32))
        ensures
            fraction.0 == self.exponent_num(),
            fraction.1 == self.exponent_den(),
            fraction.1 >= 1,
    {
        let thousandths: u32 = if self.curve_exponent >= -1000 {
            (1000i64 + self.curve_exponent as i64) as u32
        } else {
            0
        };
        let common: u32 = gcd_u32(thousandths, 1000);
        proof {
            lemma_gcd_divides(thousandths as nat, 1000);
            self.lemma_exponent();
        }
        (thousandths / common, 1000 / common)
    }

    /// Whether the configuration is well formed.
    pub fn is_valid(&self) -> (ok: bool)
        ensures
            ok == self.wf(),
    {
        if self.ticks_to_max < 1 || self.curve_exponent < -1000 || self.unit_delta > 0x7fff_ffff {
            return false;
        }
        let peak: u64 = self.steady();
        if peak > 0x7fff_ffff {
            return false;
        }
        let (num, den) = self.exponent();
        let ghost top = pow(peak as int, den as nat);
        let ghost t = pow(self.ticks_to_max as int, num as nat);
        if peak == 0 {
            proof {
                lemma0_pow(den as nat);
                assert(0 * t == 0);
            }
            return true;
        }
        proof {
            lemma_pow_positive(peak as int, den as nat);
            lemma_pow_positive(self.ticks_to_max as int, num as nat);
        }
        match checked_pow(peak as u128, den) {
            None => {
                assert(top * t > u128::MAX) by (nonlinear_arith)
                    requires
                        top > u128::MAX,
                        t >= 1,
                ;
                false
            },
            Some(peak_pow) => match checked_pow(self.ticks_to_max as u128, num) {
                None => {
                    assert(top * t > u128::MAX) by (nonlinear_arith)
                        requires
                            t > u128::MAX,
                            top >= 1,
                    ;
                    false
                },
                Some(ticks_pow) => peak_pow.checked_mul(ticks_pow).is_some(),
            },
        }
    }

    /// The ramp's value at `n`, by bisection between 0 and the peak.
    fn ramp_floor(&self, n: u64) -> (v: u64)
        requires
            self.wf(),
            0 < n < self.ticks_to_max,
        ensures
            v == self.ramp(n as nat),
            v <= self.peak(),
    {
        let peak: u64 = self.steady();
        let (num, den) = self.exponent();
        let ghost top = pow(peak as int, den as nat);
        let ghost t = pow(self.ticks_to_max as int, num as nat);
        let ghost r = pow(n as int, num as nat);
        proof {
            self.lemma_zero_within_ramp(n as nat);
            self.lemma_above_peak(n as nat);
        }
        if peak == 0 {
            proof {
                self.lemma_ramp_unique(n as nat, 0);
            }
            return 0;
        }
        proof {
            lemma_pow_positive(peak as int, den as nat);
            lemma_pow_positive(self.ticks_to_max as int, num as nat);
            lemma_pow_base_le(n as nat, self.ticks_to_max as nat, num as nat);
            lemma_mul_le(1, top, t, t);
            lemma_mul_le(top, top, 1, t);
            lemma_mul_le(top, top, r, t);
        }
        let ticks_pow: u128 = exact_pow(self.ticks_to_max as u128, num);
        let count_pow: u128 = exact_pow(n as u128, num);
        let peak_pow: u128 = exact_pow(peak as u128, den);
        let target: u128 = peak_pow * count_pow;
        let mut lo: u64 = 0;
        let mut hi: u64 = peak + 1;
        while hi - lo > 1
            invariant
                self.wf(),
                peak == self.peak(),
                num == self.exponent_num(),
                den == self.exponent_den(),
                top == pow(peak as int, den as nat),
                t == pow(self.ticks_to_max as int, num as nat),
                ticks_pow == t,
                target == top * pow(n as int, num as nat),
                top <= u128::MAX,
                top * t <= u128::MAX,
                lo < hi <= peak + 1,
                self.within_ramp(n as nat, lo as nat),
                !self.within_ramp(n as nat, hi as nat),
            decreases hi - lo,
        {
            let mid: u64 = lo + (hi - lo) / 2;
            proof {
                lemma_pow_base_le(mid as nat, peak as nat, den as nat);
                lemma_mul_le(pow(mid as int, den as nat), top, t, t);
            }
            let mid_pow: u128 = exact_pow(mid as u128, den);
            let reach: u128 = mid_pow * ticks_pow;
            if reach <= target {
                lo = mid;
            } else {
                hi = mid;
            }
        }
        proof {
            self.lemma_ramp_unique(n as nat, lo as nat);
        }
        lo
    }

    /// The magnitude of the event that follows `repeat_count` earlier ones.
    pub fn magnitude(&self, repeat_count: u64) -> (m: i32)
        requires
            self.wf(),
        ensures
            m == self.curve(repeat_count as nat),
            m >= 1,
    {
        let raw: u64 = if repeat_count == 0 {
            self.unit_delta as u64
        } else if repeat_count >= self.ticks_to_max {
            self.steady()
        } else {
            self.ramp_floor(repeat_count)
        };
        if raw < 1 {
            1
        } else {
            raw as i32
        }
    }
}

/// `base` to the power `exp`, where that is known to fit in 128 bits.
fn exact_pow(base: u128, exp: u32) -> (value: u128)
    requires
        pow(base as int, exp as nat) <= u128::MAX,
    ensures
        value == pow(base as int, exp as nat),
{
    match checked_pow(base, exp) {
        Some(value) => value,
        None => vstd::pervasive::unreached(),
    }
}

/// The pointer's curve: 7 units per event at first, ten times that after
/// 120 events, eased in with exponent 3/2; an event every 8 ms, the first
/// one 32 ms after the key went down.
pub open spec fn movement_curve() -> CurveConfig {
    CurveConfig {
        unit_delta: 7,
        max_speed: 10,
        ticks_to_max: 120,
        curve_exponent: 500,
        tick_interval: 8_000,
        activation_delay: 32_000,
    }
}

/// The wheel's curve: 3 notches per event at first, eight times that after
/// 80 events, eased in with exponent 3/2; an event every 80 ms, the first one
/// 10 ms after the key went down.
pub open spec fn wheel_curve() -> CurveConfig {
    CurveConfig {
        unit_delta: 3,
        max_speed: 8,
        ticks_to_max: 80,
        curve_exponent: 500,
        tick_interval: 80_000,
        activation_delay: 10_000,
    }
}

/// Both built-in curves are well formed, and their exponent is 3/2.
pub proof fn lemma_builtin_curves()
    ensures
        movement_curve().wf(),
        movement_curve().exponent_num() == 3,
        movement_curve().exponent_den() == 2,
        wheel_curve().wf(),
        wheel_curve().exponent_num() == 3,
        wheel_curve().exponent_den() == 2,
{
    reveal_with_fuel(gcd, 4);
    reveal_with_fuel(pow, 4);
    assert(gcd(1500, 1000) == 500);
    let m = movement_curve();
    assert(m.exponent_thousandths() == 1500);
    assert(m.exponent_num() == 3 && m.exponent_den() == 2);
    assert(m.peak() == 70);
    assert(pow(70, 2) == 4900);
    assert(pow(120, 3) == 1_728_000);
    let w = wheel_curve();
    assert(w.exponent_thousandths() == 1500);
    assert(w.exponent_num() == 3 && w.exponent_den() == 2);
    assert(w.peak() == 24);
    assert(pow(24, 2) == 576);
    assert(pow(80, 3) == 512_000);
}

/// On the built-in movement curve the first event moves by 7 and the second
/// by 1: the step that `curve_monotone` leaves out does fall there.
pub proof fn movement_curve_first_step_falls()
    ensures
        movement_curve().curve(0) == 7,
        movement_curve().curve(1) == 1,
{
    lemma_builtin_curves();
    let c = movement_curve();
    assert(c.peak() == 70 && c.ticks_to_max == 120);
    assert(c.ticks_to_max * c.ticks_to_max * c.ticks_to_max == 1_728_000);
    assert(c.peak() * c.peak() == 4_900);
    c.lemma_ramp_three_halves(1, 0);
}

/// The pointer's curve.
pub fn movement_config() -> (cfg: CurveConfig)
    ensures
        cfg == movement_curve(),
        cfg.wf(),
{
    proof {
        lemma_builtin_curves();
    }
    CurveConfig {
        unit_delta: 7,
        max_speed: 10,
        ticks_to_max: 120,
        curve_exponent: 500,
        tick_interval: 8_000,
        activation_delay: 32_000,
    }
}

/// The wheel's curve.
pub fn wheel_config() -> (cfg: CurveConfig)
    ensures
        cfg == wheel_curve(),
        cfg.wf(),
{
    proof {
        lemma_builtin_curves();
    }
    CurveConfig {
        unit_delta: 3,
        max_speed: 8,
        ticks_to_max: 80,
        curve_exponent: 500,
        tick_interval: 80_000,
        activation_delay: 10_000,
    }
}

/// How far the pointer moves on the event that follows `i` earlier ones.
pub fn mouse_keys_accel(i: u64) -> (r: i32)
    ensures
        r == movement_curve().curve(i as nat),
        r >= 1,
{
    movement_config().magnitude(i)
}

/// How far the wheel turns on the event that follows `i` earlier ones.
pub fn wheel_keys_accel(i: u64) -> (r: i32)
    ensures
        r == wheel_curve().curve(i as nat),
        r >= 1,
{
    wheel_config().magnitude(i)
}

} // verus!
