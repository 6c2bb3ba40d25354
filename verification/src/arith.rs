//! Integer helpers for the acceleration curve: the greatest common divisor,
//! powers that are checked against the width of `u128`, and the facts about
//! both that the curve's proofs rest on.

use vstd::arithmetic::div_mod::{lemma_fundamental_div_mod, lemma_mod_multiples_basic};
use vstd::arithmetic::power::{lemma0_pow, lemma1_pow, lemma_pow0, lemma_pow_increases, lemma_pow_positive, pow};
use vstd::prelude::*;

verus! {

/// The greatest common divisor, by Euclid's algorithm. `gcd(a, 0)` is `a`.
pub open spec fn gcd(a: nat, b: nat) -> nat
    decreases b,
{
    if b == 0 {
        a
    } else {
        gcd(b, a % b)
    }
}

/// `gcd(a, b)` is positive and divides both numbers, unless both are zero.
pub proof fn lemma_gcd_divides(a: nat, b: nat)
    requires
        a > 0 || b > 0,
    ensures
        gcd(a, b) >= 1,
        a % gcd(a, b) == 0,
        b % gcd(a, b) == 0,
    decreases b,
{
    if b == 0 {
        assert(a % a == 0 && 0nat % a == 0) by (nonlinear_arith)
            requires
                a > 0,
        ;
    } else {
        let r = a % b;
        let g = gcd(b, r);
        lemma_gcd_divides(b, r);
        let kb = b as int / g as int;
        let kr = r as int / g as int;
        let q = a as int / b as int;
        lemma_fundamental_div_mod(b as int, g as int);
        lemma_fundamental_div_mod(r as int, g as int);
        lemma_fundamental_div_mod(a as int, b as int);
        assert(a as int == (kb * q + kr) * g) by (nonlinear_arith)
            requires
                b as int == g * kb,
                r as int == g * kr,
                a as int == b * q + r,
        ;
        lemma_mod_multiples_basic(kb * q + kr, g as int);
    }
}

/// The product of two numbers in `[0, x]` and `[0, y]` lies in `[0, x * y]`.
pub proof fn lemma_mul_le(a: int, x: int, b: int, y: int)
    by (nonlinear_arith)
    requires
        0 <= a <= x,
        0 <= b <= y,
    ensures
        0 <= a * b <= x * y,
{
}

/// Powers keep the order of their non-negative bases.
pub proof fn lemma_pow_base_le(a: nat, b: nat, e: nat)
    requires
        a <= b,
    ensures
        0 <= pow(a as int, e) <= pow(b as int, e),
    decreases e,
{
    reveal(pow);
    if e > 0 {
        lemma_pow_base_le(a, b, (e - 1) as nat);
        lemma_mul_le(a as int, b as int, pow(a as int, (e - 1) as nat), pow(b as int, (e - 1) as nat));
    }
}

/// Positive powers keep the strict order of their non-negative bases.
pub proof fn lemma_pow_base_lt(a: nat, b: nat, e: nat)
    requires
        a < b,
        e >= 1,
    ensures
        pow(a as int, e) < pow(b as int, e),
{
    reveal(pow);
    let pa = pow(a as int, (e - 1) as nat);
    let pb = pow(b as int, (e - 1) as nat);
    lemma_pow_base_le(a, b, (e - 1) as nat);
    lemma_pow_positive(b as int, (e - 1) as nat);
    assert(a * pa < b * pb) by (nonlinear_arith)
        requires
            0 <= a < b,
            0 <= pa <= pb,
            pb >= 1,
    ;
}

/// Euclid's algorithm on machine integers.
pub fn gcd_u32(a: u32, b: u32) -> (g: u32)
    ensures
        g == gcd(a as nat, b as nat),
    decreases b,
{
    if b == 0 {
        a
    } else {
        gcd_u32(b, a % b)
    }
}

/// `base` to the power `exp`, or `None` where that does not fit in 128 bits.
pub fn checked_pow(base: u128, exp: u32) -> (result: Option<u128>)
    ensures
        match result {
            Some(value) => value == pow(base as int, exp as nat),
            None => pow(base as int, exp as nat) > u128::MAX,
        },
{
    if exp == 0 {
        proof {
            lemma_pow0(base as int);
        }
        return Some(1);
    }
    if base <= 1 {
        proof {
            if base == 0 {
                lemma0_pow(exp as nat);
            } else {
                lemma1_pow(exp as nat);
            }
        }
        return Some(base);
    }
    let mut acc: u128 = 1;
    let mut done: u32 = 0;
    proof {
        lemma_pow0(base as int);
    }
    while done < exp
        invariant
            base >= 2,
            done <= exp,
            acc == pow(base as int, done as nat),
        decreases exp - done,
    {
        proof {
            reveal(pow);
            assert(pow(base as int, (done + 1) as nat) == base * pow(base as int, done as nat));
        }
        match acc.checked_mul(base) {
            Some(next) => {
                assert(next == base * acc) by (nonlinear_arith)
                    requires
                        next == acc * base,
                ;
                acc = next;
                done = done + 1;
            },
            None => {
                proof {
                    assert(base * acc == acc * base) by (nonlinear_arith);
                    lemma_pow_increases(base as nat, (done + 1) as nat, exp as nat);
                }
                return None;
            },
        }
    }
    Some(acc)
}

} // verus!
