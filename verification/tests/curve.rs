use mousekeys::accel::{mouse_keys_accel, movement_config, wheel_config, wheel_keys_accel, CurveConfig};
use mousekeys::arith::{checked_pow, gcd_u32};

/// `floor(peak * (n / ticks) ^ exponent)`, at least 1, in floating point.
/// The small offset keeps a value that is an integer from being rounded
/// down to the one below it.
fn float_curve(peak: f64, n: u64, ticks: f64, exponent: f64) -> i32 {
    let value = (peak * (n as f64 / ticks).powf(exponent) + 1e-9).floor() as i32;
    if value < 1 {
        1
    } else {
        value
    }
}

fn curve(unit_delta: u32, max_speed: u32, ticks_to_max: u64, curve_exponent: i32) -> CurveConfig {
    CurveConfig {
        unit_delta,
        max_speed,
        ticks_to_max,
        curve_exponent,
        tick_interval: 8_000,
        activation_delay: 32_000,
    }
}

#[test]
fn builtin_curves_have_their_documented_parameters() {
    let movement = movement_config();
    assert_eq!(movement.unit_delta, 7);
    assert_eq!(movement.max_speed, 10);
    assert_eq!(movement.ticks_to_max, 120);
    assert_eq!(movement.curve_exponent, 500);
    assert_eq!(movement.tick_interval, 8_000);
    assert_eq!(movement.activation_delay, 32_000);
    let wheel = wheel_config();
    assert_eq!(wheel.unit_delta, 3);
    assert_eq!(wheel.max_speed, 8);
    assert_eq!(wheel.ticks_to_max, 80);
    assert_eq!(wheel.curve_exponent, 500);
    assert_eq!(wheel.tick_interval, 80_000);
    assert_eq!(wheel.activation_delay, 10_000);
    assert!(movement.is_valid());
    assert!(wheel.is_valid());
}

#[test]
fn first_event_moves_by_unit_delta() {
    assert_eq!(mouse_keys_accel(0), 7);
    assert_eq!(wheel_keys_accel(0), 3);
}

#[test]
fn second_event_follows_the_ramp_not_the_unit() {
    assert_eq!(mouse_keys_accel(1), 1);
    assert_eq!(wheel_keys_accel(1), 1);
    assert!(mouse_keys_accel(1) < mouse_keys_accel(0));
}

#[test]
fn movement_ramp_exact_values() {
    // 70 * (n / 120) ^ 1.5
    assert_eq!(mouse_keys_accel(2), 1);
    assert_eq!(mouse_keys_accel(8), 1);
    assert_eq!(mouse_keys_accel(12), 2);
    assert_eq!(mouse_keys_accel(30), 8);
    assert_eq!(mouse_keys_accel(60), 24);
    assert_eq!(mouse_keys_accel(90), 45);
    assert_eq!(mouse_keys_accel(119), 69);
}

#[test]
fn wheel_ramp_exact_values() {
    // 24 * (n / 80) ^ 1.5; at 20 the value is exactly 3
    assert_eq!(wheel_keys_accel(5), 1);
    assert_eq!(wheel_keys_accel(19), 2);
    assert_eq!(wheel_keys_accel(20), 3);
    assert_eq!(wheel_keys_accel(40), 8);
    assert_eq!(wheel_keys_accel(45), 10);
    assert_eq!(wheel_keys_accel(79), 23);
}

#[test]
fn movement_ramp_matches_the_power_formula() {
    for n in 1..120u64 {
        assert_eq!(mouse_keys_accel(n), float_curve(70.0, n, 120.0, 1.5), "at {}", n);
    }
}

#[test]
fn wheel_ramp_matches_the_power_formula() {
    for n in 1..80u64 {
        assert_eq!(wheel_keys_accel(n), float_curve(24.0, n, 80.0, 1.5), "at {}", n);
    }
}

#[test]
fn curve_never_falls_after_the_first_event() {
    for n in 1..200u64 {
        assert!(mouse_keys_accel(n + 1) >= mouse_keys_accel(n), "movement at {}", n);
        assert!(wheel_keys_accel(n + 1) >= wheel_keys_accel(n), "wheel at {}", n);
    }
}

#[test]
fn curve_is_flat_from_ticks_to_max_on() {
    assert_eq!(mouse_keys_accel(120), 70);
    assert_eq!(wheel_keys_accel(80), 24);
    for k in 0..500u64 {
        assert_eq!(mouse_keys_accel(120 + k), 70);
        assert_eq!(wheel_keys_accel(80 + k), 24);
    }
    assert_eq!(mouse_keys_accel(u64::MAX), 70);
    assert_eq!(wheel_keys_accel(u64::MAX), 24);
}

#[test]
fn curve_is_never_below_one() {
    for n in 0..300u64 {
        assert!(mouse_keys_accel(n) >= 1);
        assert!(wheel_keys_accel(n) >= 1);
    }
    let still = curve(0, 0, 10, 500);
    assert!(still.is_valid());
    for n in 0..20u64 {
        assert_eq!(still.magnitude(n), 1);
    }
}

#[test]
fn magnitude_agrees_with_the_builtin_functions() {
    let movement = movement_config();
    let wheel = wheel_config();
    for n in 0..130u64 {
        assert_eq!(movement.magnitude(n), mouse_keys_accel(n));
        assert_eq!(wheel.magnitude(n), wheel_keys_accel(n));
    }
}

#[test]
fn exponent_is_in_lowest_terms() {
    assert_eq!(curve(7, 10, 120, 500).exponent(), (3, 2));
    assert_eq!(curve(7, 10, 120, 0).exponent(), (1, 1));
    assert_eq!(curve(7, 10, 120, 1000).exponent(), (2, 1));
    assert_eq!(curve(7, 10, 120, -1000).exponent(), (0, 1));
    assert_eq!(curve(7, 10, 120, -500).exponent(), (1, 2));
    assert_eq!(curve(7, 10, 120, 250).exponent(), (5, 4));
    assert_eq!(curve(7, 10, 120, 1).exponent(), (1001, 1000));
    assert_eq!(curve(7, 10, 120, i32::MAX).exponent(), (2_147_484_647, 1000));
    // under -1000 the exponent counts as zero; such a curve is not well formed
    assert_eq!(curve(7, 10, 120, -1001).exponent(), (0, 1));
    assert_eq!(curve(7, 10, 120, i32::MIN).exponent(), (0, 1));
}

#[test]
fn linear_ramp() {
    let linear = curve(7, 10, 120, 0);
    assert!(linear.is_valid());
    for n in 1..120u64 {
        let expected = (70 * n / 120) as i32;
        assert_eq!(linear.magnitude(n), if expected < 1 { 1 } else { expected });
    }
    assert_eq!(linear.magnitude(0), 7);
    assert_eq!(linear.magnitude(120), 70);
}

#[test]
fn quadratic_ramp() {
    let quadratic = curve(7, 10, 120, 1000);
    assert!(quadratic.is_valid());
    for n in 1..120u64 {
        let expected = (70 * n * n / (120 * 120)) as i32;
        assert_eq!(quadratic.magnitude(n), if expected < 1 { 1 } else { expected });
    }
}

#[test]
fn square_root_ramp() {
    let root = curve(7, 10, 120, -500);
    assert!(root.is_valid());
    assert_eq!(root.exponent(), (1, 2));
    // 70 * sqrt(30 / 120) = 35
    assert_eq!(root.magnitude(30), 35);
    for n in 1..120u64 {
        assert_eq!(root.magnitude(n), float_curve(70.0, n, 120.0, 0.5), "at {}", n);
    }
}

#[test]
fn constant_ramp_when_exponent_is_zero() {
    let flat = curve(7, 10, 120, -1000);
    assert!(flat.is_valid());
    assert_eq!(flat.magnitude(0), 7);
    for n in 1..130u64 {
        assert_eq!(flat.magnitude(n), 70);
    }
}

#[test]
fn steady_magnitude_is_the_product() {
    assert_eq!(movement_config().steady(), 70);
    assert_eq!(wheel_config().steady(), 24);
    assert_eq!(curve(u32::MAX, u32::MAX, 1, 0).steady(), u32::MAX as u64 * u32::MAX as u64);
}

#[test]
fn single_step_ramp() {
    let sudden = curve(7, 10, 1, 500);
    assert!(sudden.is_valid());
    assert_eq!(sudden.magnitude(0), 7);
    assert_eq!(sudden.magnitude(1), 70);
    assert_eq!(sudden.magnitude(2), 70);
}

#[test]
fn invalid_configurations_are_told_apart() {
    assert!(!curve(7, 10, 0, 500).is_valid());
    assert!(!curve(7, 10, 120, -1001).is_valid());
    assert!(curve(7, 10, 120, -1000).is_valid());
    // unit_delta beyond i32
    assert!(!curve(0x8000_0000, 0, 120, 500).is_valid());
    assert!(curve(0x7fff_ffff, 0, 120, 500).is_valid());
    // the peak beyond i32
    assert!(!curve(0x1_0000, 0x8000, 120, 0).is_valid());
    assert!(curve(0x7fff_ffff, 1, 120, 0).is_valid());
    // peak^1000 * ticks^1001 beyond u128
    assert!(!curve(7, 10, 120, 1).is_valid());
    // 1^1000 * 1^1001 is not
    assert!(curve(1, 1, 1, 1).is_valid());
    // (2^31 - 1)^2 * ticks^3 fits for ticks up to 2^22, not for 2^23
    assert!(curve(0x7fff_ffff, 1, 1 << 22, 500).is_valid());
    assert!(!curve(0x7fff_ffff, 1, 1 << 23, 500).is_valid());
}

#[test]
fn large_valid_configuration() {
    let large = curve(0x7fff_ffff, 1, 1 << 22, 500);
    assert!(large.is_valid());
    assert_eq!(large.magnitude(1 << 22), 0x7fff_ffff);
    // (1/4)^(3/2) = 1/8
    assert_eq!(large.magnitude(1 << 20), 0x7fff_ffff / 8);
    assert_eq!(large.magnitude(1), 1);
}

#[test]
fn gcd_values() {
    assert_eq!(gcd_u32(1500, 1000), 500);
    assert_eq!(gcd_u32(1000, 1500), 500);
    assert_eq!(gcd_u32(0, 1000), 1000);
    assert_eq!(gcd_u32(1000, 0), 1000);
    assert_eq!(gcd_u32(0, 0), 0);
    assert_eq!(gcd_u32(1001, 1000), 1);
    assert_eq!(gcd_u32(u32::MAX, 1000), 5);
}

#[test]
fn checked_pow_values() {
    assert_eq!(checked_pow(0, 0), Some(1));
    assert_eq!(checked_pow(0, 5), Some(0));
    assert_eq!(checked_pow(1, u32::MAX), Some(1));
    assert_eq!(checked_pow(7, 1), Some(7));
    assert_eq!(checked_pow(120, 3), Some(1_728_000));
    assert_eq!(checked_pow(2, 127), Some(1u128 << 127));
    assert_eq!(checked_pow(2, 128), None);
    assert_eq!(checked_pow(u128::MAX, 1), Some(u128::MAX));
    assert_eq!(checked_pow(u128::MAX, 2), None);
    assert_eq!(checked_pow(10, 38), Some(100_000_000_000_000_000_000_000_000_000_000_000_000));
    assert_eq!(checked_pow(10, 39), None);
}

#[test]
fn builtin_ramps_agree_with_single_precision() {
    for n in 1..120u64 {
        let ramp = (7.0f32 * 10.0f32 * (n as f32 / 120.0f32).powf(1.5f32)).floor() as i32;
        assert_eq!(mouse_keys_accel(n), if ramp <= 0 { 1 } else { ramp }, "movement at {}", n);
    }
    for n in 1..80u64 {
        let ramp = (3.0f32 * 8.0f32 * (n as f32 / 80.0f32).powf(1.5f32)).floor() as i32;
        assert_eq!(wheel_keys_accel(n), if ramp <= 0 { 1 } else { ramp }, "wheel at {}", n);
    }
}
