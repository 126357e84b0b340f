use math3d::Vector3;
use math3d::consts::UNIT_SCALE;

#[test]
fn vector3_constructor() {
    let v = Vector3::new(1, 1, 1);
    assert_eq!(v, Vector3::one());
}

#[test]
fn vector3_sqr_magnitude() {
    let mag = Vector3::new(5, 0, 0).sqr_magnitude();
    assert_eq!(mag, 5 * 5);
}

#[test]
fn vector3_magnitude() {
    let mag = Vector3::new(5, 0, 0).magnitude();
    assert_eq!(mag, 5);
}

#[test]
fn vector3_normalize_self() {
    let mut v = Vector3::new(5, 0, 0);
    v.normalize();
    assert_eq!(v.x, UNIT_SCALE);
}

#[test]
fn vector3_normalized() {
    let v = Vector3::new(5, 0, 0).normalized();
    assert_eq!(v.x, UNIT_SCALE);
}

#[test]
fn vector3_normalized_direction() {
    // A general value keeps its direction and comes out near unit length.
    let v = Vector3::new(3, 4, 0).normalized();
    assert_eq!(v, Vector3::new(39321, 52428, 0));
    assert_eq!(v.magnitude(), UNIT_SCALE - 1);
}

#[test]
fn vector3_normalized_zero() {
    assert_eq!(Vector3::zero().normalized(), Vector3::zero());
}

#[test]
fn vector3_dot_product() {
    let left = Vector3::new(-1, 0, 0);
    let right = Vector3::new(1, 0, 0);
    let forward = Vector3::new(0, 0, 1);

    assert_eq!(Vector3::dot(right, right), 1);
    assert_eq!(Vector3::dot(right, left), -1);
    assert_eq!(Vector3::dot(right, forward), 0);
}

#[test]
fn vector3_cross_product() {
    let up = Vector3::cross(Vector3::forward(), Vector3::right());
    assert_eq!(up, Vector3::up());
}

#[test]
fn vector3_distance() {
    let d = Vector3::distance(Vector3::new(1, 0, 0), Vector3::zero());
    assert_eq!(d, 1);
}

#[test]
fn vector3_scale() {
    let v = Vector3::scale(Vector3::one(), Vector3::one().mul_scalar(4));
    assert_eq!(v, Vector3::one().mul_scalar(4));
}

#[test]
fn vector3_clamp_magnitude() {
    let v = Vector3::new(10, 0, 0).clamp_magnitude(2);
    assert_eq!(v, Vector3::new(2, 0, 0));
    // A diagonal vector comes down to the diagonal of length floor 2.
    let w = Vector3::one().mul_scalar(10).clamp_magnitude(2);
    assert_eq!(w, Vector3::one());
}

#[test]
fn vector3_project() {
    let vector = Vector3::right().mul_scalar(2);
    let point = Vector3::right();
    let projected = Vector3::project(point, vector);
    assert_eq!(projected, Vector3::right());
}

#[test]
fn vector3_project_on_segment() {
    let segment_end = Vector3::right().mul_scalar(2);
    let point = Vector3::right().mul_scalar(4);
    let projected = Vector3::project_on_segment(point, Vector3::zero(), segment_end);
    assert_eq!(projected, Vector3::new(2, 0, 0));
}

#[test]
fn vector3_project_on_plane() {
    let plane_normal = Vector3::forward();
    let point = Vector3::forward().mul_scalar(4).neg();
    let projected = Vector3::project_on_plane(point, plane_normal);
    assert_eq!(projected, Vector3::zero());
}

#[test]
fn vector3_reflect() {
    let normal = Vector3::forward();
    let vector = Vector3::new(-1, 0, -1);
    let reflected = Vector3::reflect(vector, normal);
    assert_eq!(reflected, Vector3::new(-1, 0, 1));
}

#[test]
fn vector3_ortho_normalize() {
    let mut a = Vector3::new(5, 0, 0);
    let mut b = Vector3::new(1, 1, 0);
    Vector3::ortho_normalize(&mut a, &mut b);
    assert_eq!(a, Vector3::right().mul_scalar(UNIT_SCALE));
    assert_eq!(b, Vector3::forward().mul_scalar(UNIT_SCALE));
}

#[test]
fn vector3_lerp() {
    let a = Vector3::zero();
    let b = Vector3::new(2, 0, 0);

    assert_eq!(Vector3::lerp_to(a, b, 0, 2), Vector3::zero());
    assert_eq!(Vector3::lerp_to(a, b, 1, 2), Vector3::new(1, 0, 0));
    assert_eq!(Vector3::lerp_to(a, b, 2, 2), b);
    // The ratio is clamped into the unit interval.
    assert_eq!(Vector3::lerp_to(a, b, -3, 2), Vector3::zero());
    assert_eq!(Vector3::lerp_to(a, b, 5, 2), b);
}

#[test]
fn vector3_lerp_unclamped() {
    let a = Vector3::zero();
    let b = Vector3::right();

    assert_eq!(Vector3::lerp_to_unclamped(a, b, -1, 1), Vector3::new(-1, 0, 0));
    assert_eq!(Vector3::lerp_to_unclamped(a, b, 0, 1), Vector3::zero());
    assert_eq!(Vector3::lerp_to_unclamped(a, b, 1, 1), Vector3::right());
    assert_eq!(Vector3::lerp_to_unclamped(a, b, 2, 1), Vector3::new(2, 0, 0));
}

#[test]
fn vector3_add_scalar() {
    let v = Vector3::new(1, 0, 0).add_scalar(2);
    assert_eq!(v.x, 3);
    assert_eq!(v.y, 2);
    assert_eq!(v.z, 2);
}

#[test]
fn vector3_add_vector() {
    let a = Vector3::new(1, 0, 0);
    let b = Vector3::new(0, 0, 1);
    let v = a.add(b);
    assert_eq!(v.x, 1);
    assert_eq!(v.z, 1);
}

#[test]
fn vector3_sub_vector() {
    let a = Vector3::new(1, 0, 0);
    let b = Vector3::new(0, 0, 1);
    let v = b.sub(a);
    assert_eq!(v.x, -1);
    assert_eq!(v.z, 1);
}

#[test]
fn vector3_mul_scalar() {
    let v = Vector3::new(1, 1, 1).mul_scalar(2);
    assert_eq!(v.x, 2);
    assert_eq!(v.y, 2);
    assert_eq!(v.z, 2);
}

#[test]
fn vector3_div_scalar() {
    let v = Vector3::new(2, 2, 2).div_scalar(2);
    assert_eq!(v.x, 1);
    assert_eq!(v.y, 1);
    assert_eq!(v.z, 1);
}

#[test]
fn vector3_div_scalar_truncates() {
    let v = Vector3::new(-3, 3, 7).div_scalar(2);
    assert_eq!(v, Vector3::new(-1, 1, 3));
}

#[test]
fn vector3_neg_vector() {
    let v = Vector3::new(1, 1, 1);
    let neg_v = v.neg();
    assert_eq!(neg_v.x, -1);
    assert_eq!(neg_v.y, -1);
    assert_eq!(neg_v.z, -1);
}
