use math3d::Vector4;
use math3d::consts::UNIT_SCALE;

#[test]
fn vector4_constructor() {
    let v = Vector4::new(1, 1, 1, 1);
    assert_eq!(v, Vector4::one());
}

#[test]
fn vector4_sqr_magnitude() {
    let mag = Vector4::new(5, 0, 0, 0).sqr_magnitude();
    assert_eq!(mag, 5 * 5);
}

#[test]
fn vector4_magnitude() {
    let mag = Vector4::new(5, 0, 0, 0).magnitude();
    assert_eq!(mag, 5);
}

#[test]
fn vector4_normalize_self() {
    let mut v = Vector4::new(5, 0, 0, 0);
    v.normalize();
    assert_eq!(v.x, UNIT_SCALE);
}

#[test]
fn vector4_normalized() {
    let v = Vector4::new(5, 0, 0, 0).normalized();
    assert_eq!(v.x, UNIT_SCALE);
}

#[test]
fn vector4_normalized_direction() {
    let v = Vector4::new(3, 4, 0, 0).normalized();
    assert_eq!(v, Vector4::new(39321, 52428, 0, 0));
    assert_eq!(v.magnitude(), UNIT_SCALE - 1);
}

#[test]
fn vector4_normalized_zero() {
    assert_eq!(Vector4::zero().normalized(), Vector4::zero());
}

#[test]
fn vector4_dot_product() {
    let left = Vector4::new(-1, 0, 0, 0);
    let right = Vector4::new(1, 0, 0, 0);
    let forward = Vector4::new(0, 0, 1, 0);

    assert_eq!(Vector4::dot(right, right), 1);
    assert_eq!(Vector4::dot(right, left), -1);
    assert_eq!(Vector4::dot(right, forward), 0);
}

#[test]
fn vector4_distance() {
    let d = Vector4::distance(Vector4::new(1, 0, 0, 0), Vector4::zero());
    assert_eq!(d, 1);
}

#[test]
fn vector4_scale() {
    let v = Vector4::scale(Vector4::one(), Vector4::one().mul_scalar(4));
    assert_eq!(v, Vector4::one().mul_scalar(4));
}

#[test]
fn vector4_clamp_magnitude() {
    let v = Vector4::new(10, 0, 0, 0).clamp_magnitude(2);
    assert_eq!(v, Vector4::new(2, 0, 0, 0));
}

#[test]
fn vector4_project() {
    let projected = Vector4::project(Vector4::one(), Vector4::one());
    assert_eq!(projected, Vector4::one());
}

#[test]
fn vector4_lerp() {
    let a = Vector4::zero();
    let b = Vector4::new(2, 2, 2, 2);

    assert_eq!(Vector4::lerp(a, b, 0, 2), Vector4::zero());
    assert_eq!(Vector4::lerp(a, b, 1, 2), Vector4::one());
    assert_eq!(Vector4::lerp(a, b, 2, 2), b);
}

#[test]
fn vector4_lerp_unclamped() {
    let a = Vector4::zero();
    let b = Vector4::one();

    assert_eq!(Vector4::lerp_unclamped(a, b, -1, 1), Vector4::new(-1, -1, -1, -1));
    assert_eq!(Vector4::lerp_unclamped(a, b, 0, 1), Vector4::zero());
    assert_eq!(Vector4::lerp_unclamped(a, b, 1, 1), Vector4::one());
    assert_eq!(Vector4::lerp_unclamped(a, b, 2, 1), Vector4::new(2, 2, 2, 2));
}

#[test]
fn vector4_add_scalar() {
    let v = Vector4::new(1, 0, 0, 0).add_scalar(2);
    assert_eq!(v.x, 3);
    assert_eq!(v.y, 2);
    assert_eq!(v.z, 2);
    assert_eq!(v.w, 2);
}

#[test]
fn vector4_add_vector() {
    let a = Vector4::new(1, 0, 0, 0);
    let b = Vector4::new(0, 0, 1, 0);
    let v = a.add(b);
    assert_eq!(v.x, 1);
    assert_eq!(v.z, 1);
}

#[test]
fn vector4_sub_vector() {
    let a = Vector4::new(1, 0, 0, 0);
    let b = Vector4::new(0, 0, 1, 0);
    let v = b.sub(a);
    assert_eq!(v.x, -1);
    assert_eq!(v.z, 1);
}

#[test]
fn vector4_sub_scalar() {
    let v = Vector4::new(1, 0, 0, 0).sub_scalar(2);
    assert_eq!(v, Vector4::new(-1, -2, -2, -2));
}

#[test]
fn vector4_mul_scalar() {
    let v = Vector4::new(1, 1, 1, 1).mul_scalar(2);
    assert_eq!(v.x, 2);
    assert_eq!(v.y, 2);
    assert_eq!(v.z, 2);
    assert_eq!(v.w, 2);
}

#[test]
fn vector4_div_scalar() {
    let v = Vector4::new(2, 2, 2, 2).div_scalar(2);
    assert_eq!(v.x, 1);
    assert_eq!(v.y, 1);
    assert_eq!(v.z, 1);
    assert_eq!(v.w, 1);
}

#[test]
fn vector4_neg_vector() {
    let v = Vector4::new(1, 1, 1, 1);
    let neg_v = v.neg();
    assert_eq!(neg_v.x, -1);
    assert_eq!(neg_v.y, -1);
    assert_eq!(neg_v.z, -1);
    assert_eq!(neg_v.w, -1);
}
