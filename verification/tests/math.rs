//! Angle, fixed-point and trigonometry behavior on concrete values.

use antsim::fixed::{isqrt, mul_fp, SCALE};
use antsim::util::{atan2_fp, cos_fp, normalize_angle, sin_fp, HALF_PI_FP, PI_FP};

#[test]
fn test_normalize_angle() {
    assert_eq!(normalize_angle(PI_FP), PI_FP);
    assert_eq!(normalize_angle(PI_FP * 2), 0);
    assert_eq!(normalize_angle(-PI_FP), -PI_FP);
    assert_eq!(normalize_angle(-PI_FP * 2), 0);
    let tenth = 6554; // 0.1 in fixed point
    assert_eq!(normalize_angle(-PI_FP - tenth), PI_FP - tenth);
    assert_eq!(normalize_angle(PI_FP + tenth), -PI_FP + tenth);
}

#[test]
fn normalize_angle_many_turns() {
    let a = 12345;
    assert_eq!(normalize_angle(a + 10 * 2 * PI_FP), a);
    assert_eq!(normalize_angle(a - 7 * 2 * PI_FP), a);
}

#[test]
fn mul_fp_exact_values() {
    assert_eq!(mul_fp(SCALE, SCALE), SCALE);
    assert_eq!(mul_fp(2 * SCALE, 3 * SCALE), 6 * SCALE);
    assert_eq!(mul_fp(-2 * SCALE, 3 * SCALE), -6 * SCALE);
    assert_eq!(mul_fp(SCALE / 2, SCALE / 2), SCALE / 4);
    assert_eq!(mul_fp(0, 12345), 0);
}

#[test]
fn isqrt_exact_values() {
    assert_eq!(isqrt(0), 0);
    assert_eq!(isqrt(1), 1);
    assert_eq!(isqrt(3), 1);
    assert_eq!(isqrt(4), 2);
    assert_eq!(isqrt(1000000), 1000);
    assert_eq!(isqrt(999999), 999);
}

#[test]
fn sin_cos_landmarks() {
    assert_eq!(sin_fp(0), 0);
    assert_eq!(sin_fp(PI_FP), 0);
    // the rational approximation reaches one (up to a unit) at a quarter turn
    assert!((sin_fp(HALF_PI_FP) - SCALE).abs() <= 2);
    assert!((cos_fp(0) - SCALE).abs() <= 2);
    assert!((cos_fp(PI_FP) + SCALE).abs() <= 2);
    // bounded everywhere
    let mut a = -PI_FP;
    while a <= PI_FP {
        assert!(sin_fp(a).abs() <= SCALE);
        assert!(cos_fp(a).abs() <= SCALE);
        a += 1000;
    }
}

#[test]
fn atan2_landmarks() {
    assert_eq!(atan2_fp(0, SCALE), 0);
    assert_eq!(atan2_fp(0, -SCALE), PI_FP);
    assert_eq!(atan2_fp(SCALE, 0), HALF_PI_FP);
    assert_eq!(atan2_fp(-SCALE, 0), -HALF_PI_FP);
    assert_eq!(atan2_fp(0, 0), 0);
    // the diagonal is a quarter-pi up to the approximation's error
    let d = atan2_fp(SCALE, SCALE);
    assert!((d - PI_FP / 4).abs() < 1000);
}
