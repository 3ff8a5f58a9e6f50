use shooter_core::fixed::{
    clamp_i64, isqrt_u128, lerp, lerp_inverse, mul_milli, round_milli, sat_add, sat_sub, z_from_y,
    COORD_LIMIT,
};

#[test]
fn test_lerp() {
    assert_eq!(lerp_inverse(0, 1_000, 500), 500);
    assert_eq!(lerp_inverse(-1_000, 1_000, 0), 500);

    for i in 1..10 {
        assert_eq!(lerp_inverse(0, i * 1_000, 500), 500 / i);
    }
}

#[test]
fn lerp_exact_values() {
    assert_eq!(lerp(0, 1_000, 500), 500);
    assert_eq!(lerp(900_000, 100_000, 500), 500_000);
    assert_eq!(lerp(100, 100, 750), 100);
    assert_eq!(lerp(-1_000, 1_000, 250), -500);
}

#[test]
fn z_from_y_maps_height_to_depth() {
    assert_eq!(z_from_y(0), 500_000);
    assert_eq!(z_from_y(2_500_000), 100_000);
    assert_eq!(z_from_y(-2_500_000), 900_000);
}

#[test]
fn round_milli_halves_away_from_zero() {
    assert_eq!(round_milli(0), 0);
    assert_eq!(round_milli(499), 0);
    assert_eq!(round_milli(500), 1);
    assert_eq!(round_milli(999), 1);
    assert_eq!(round_milli(1_000), 1);
    assert_eq!(round_milli(1_499), 1);
    assert_eq!(round_milli(1_500), 2);
    assert_eq!(round_milli(-1_499), -1);
    assert_eq!(round_milli(-1_500), -2);
}

#[test]
fn isqrt_exact_values() {
    assert_eq!(isqrt_u128(0), 0);
    assert_eq!(isqrt_u128(1), 1);
    assert_eq!(isqrt_u128(3), 1);
    assert_eq!(isqrt_u128(4), 2);
    assert_eq!(isqrt_u128(99), 9);
    assert_eq!(isqrt_u128(100), 10);
    assert_eq!(isqrt_u128(25_000_000), 5_000);
    assert_eq!(isqrt_u128(10_000_000_000), 100_000);
}

#[test]
fn clamp_works_both_ways() {
    assert_eq!(clamp_i64(5, 0, 3), 3);
    assert_eq!(clamp_i64(-5, 0, 3), 0);
    assert_eq!(clamp_i64(2, 0, 3), 2);
}

#[test]
fn saturating_ops_stop_at_the_limit() {
    assert_eq!(sat_add(COORD_LIMIT, 1), COORD_LIMIT);
    assert_eq!(sat_sub(-COORD_LIMIT, 5), -COORD_LIMIT);
    assert_eq!(sat_add(1, 2), 3);
    assert_eq!(sat_sub(1, 2), -1);
    assert_eq!(mul_milli(COORD_LIMIT, COORD_LIMIT), COORD_LIMIT);
}

#[test]
fn mul_milli_truncates_toward_zero() {
    assert_eq!(mul_milli(1_500, 2_000), 3_000);
    assert_eq!(mul_milli(-1_500, 999), -1_498);
    assert_eq!(mul_milli(1_500, 999), 1_498);
    assert_eq!(mul_milli(0, 12_345), 0);
}
