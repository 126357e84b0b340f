use math3d::ApproxEq;
use math3d::Clamp;
use math3d::Clamp01;
use math3d::isqrt;

#[test]
fn math_clamp() {
    assert_eq!(Clamp::clamp(6_i64, 0, 1), 1);
}

#[test]
fn math_clamp01() {
    assert_eq!(Clamp01::clamp01(6_i64), 1);
}

#[test]
fn approx_eq() {
    assert!(1_i64.approx_eq(1_i64));
    assert!(1_i64.approx_eq(1_i64));
}

#[test]
fn clamp_clamp() {
    assert_eq!(Clamp::clamp(6_i64, 0, 1), 1);
}

#[test]
fn clamp_clamp01() {
    assert_eq!(Clamp01::clamp01(6_i64), 1);
}

#[test]
fn approx_eq_distinct() {
    assert!(!1_i64.approx_eq(2_i64));
}

#[test]
fn clamp_inside() {
    assert_eq!(Clamp::clamp(3_i64, 0, 7), 3);
    assert_eq!(Clamp::clamp(-4_i64, 0, 7), 0);
}

#[test]
fn clamp01_inside() {
    assert_eq!(Clamp01::clamp01(0_i64), 0);
    assert_eq!(Clamp01::clamp01(1_i64), 1);
    assert_eq!(Clamp01::clamp01(-5_i64), 0);
}

#[test]
fn isqrt_small() {
    assert_eq!(isqrt(0), 0);
    assert_eq!(isqrt(1), 1);
    assert_eq!(isqrt(24), 4);
    assert_eq!(isqrt(25), 5);
    assert_eq!(isqrt(26), 5);
}

#[test]
fn isqrt_large() {
    assert_eq!(isqrt(u64::MAX), 4294967295);
    assert_eq!(isqrt(4294967295 * 4294967295), 4294967295);
}
