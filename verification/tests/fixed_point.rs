//! Fixed-point arithmetic helpers.

use padmouse::fixed::{fx_abs, fx_clamp, fx_round_units, fx_scale_mul, SCALE};

#[test]
fn scale_constant_is_one_million() {
    assert_eq!(SCALE, 1_000_000);
}

#[test]
fn clamp_pins_values_into_the_interval() {
    assert_eq!(fx_clamp(5, -10, 10), 5);
    assert_eq!(fx_clamp(-15, -10, 10), -10);
    assert_eq!(fx_clamp(15, -10, 10), 10);
}

#[test]
fn abs_flips_negative_values() {
    assert_eq!(fx_abs(-7), 7);
    assert_eq!(fx_abs(7), 7);
    assert_eq!(fx_abs(0), 0);
}

#[test]
fn scale_mul_is_the_fixed_point_product() {
    // 2.0 * 0.5 == 1.0
    assert_eq!(fx_scale_mul(2_000_000, 500_000), 1_000_000);
    assert_eq!(fx_scale_mul(-2_000_000, 500_000), -1_000_000);
    // Truncation is toward zero on both sides.
    assert_eq!(fx_scale_mul(999_999, 1), 0);
    assert_eq!(fx_scale_mul(-999_999, 1), 0);
}

#[test]
fn rounding_to_units_is_half_away_from_zero() {
    assert_eq!(fx_round_units(1_500_000), 2);
    assert_eq!(fx_round_units(-1_500_000), -2);
    assert_eq!(fx_round_units(1_499_999), 1);
    assert_eq!(fx_round_units(-1_499_999), -1);
    assert_eq!(fx_round_units(499_999), 0);
    assert_eq!(fx_round_units(-499_999), 0);
    assert_eq!(fx_round_units(500_000), 1);
}
