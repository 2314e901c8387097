use arcade_core::math::{add_angle, clamp_i64, cos_fixed, dist_floor, isqrt_u64, sin_fixed, toward_i64};

#[test]
fn isqrt_small_values() {
    assert_eq!(isqrt_u64(0), 0);
    assert_eq!(isqrt_u64(1), 1);
    assert_eq!(isqrt_u64(3), 1);
    assert_eq!(isqrt_u64(4), 2);
    assert_eq!(isqrt_u64(24), 4);
    assert_eq!(isqrt_u64(25), 5);
    assert_eq!(isqrt_u64(26), 5);
}

#[test]
fn isqrt_large_values() {
    assert_eq!(isqrt_u64(1_000_000_000_000_000_000), 1_000_000_000);
    assert_eq!(isqrt_u64(u64::MAX), 4_294_967_295);
}

#[test]
fn sine_exact_points() {
    assert_eq!(sin_fixed(0), 0);
    assert_eq!(sin_fixed(30_000), 500_000);
    assert_eq!(sin_fixed(90_000), 1_000_000);
    assert_eq!(sin_fixed(150_000), 500_000);
    assert_eq!(sin_fixed(180_000), 0);
    assert_eq!(sin_fixed(270_000), -1_000_000);
}

#[test]
fn sine_sixty_degrees_close_to_true_value() {
    // True value: 0.8660 * 10^6; the rational approximation is within 0.002.
    let s = sin_fixed(60_000);
    assert!((s - 866_025).abs() < 2_000, "sin(60deg) approx was {s}");
}

#[test]
fn cosine_quarter_turns() {
    assert_eq!(cos_fixed(0), 1_000_000);
    assert_eq!(cos_fixed(90_000), 0);
    assert_eq!(cos_fixed(180_000), -1_000_000);
    assert_eq!(cos_fixed(270_000), 0);
}

#[test]
fn clamp_behaviour() {
    assert_eq!(clamp_i64(5, 0, 3), 3);
    assert_eq!(clamp_i64(-5, 0, 3), 0);
    assert_eq!(clamp_i64(2, 0, 3), 2);
}

#[test]
fn toward_scales_and_keeps_sign() {
    assert_eq!(toward_i64(100, 50, 100), 50);
    assert_eq!(toward_i64(-100, 50, 100), -50);
    assert_eq!(toward_i64(7, 3, 5), 4);
    assert_eq!(toward_i64(-7, 3, 5), -4);
    assert_eq!(toward_i64(0, 3, 5), 0);
}

#[test]
fn angles_wrap_into_one_turn() {
    assert_eq!(add_angle(350_000, 20_000), 10_000);
    assert_eq!(add_angle(10_000, -20_000), 350_000);
    assert_eq!(add_angle(100_000, 50_000), 150_000);
}

#[test]
fn distance_floor() {
    assert_eq!(dist_floor((0, 0), (3, 4)), 5);
    assert_eq!(dist_floor((0, 0), (1, 1)), 1);
    assert_eq!(dist_floor((10, 10), (10, 10)), 0);
    assert_eq!(dist_floor((-3, 0), (0, -4)), 5);
}
