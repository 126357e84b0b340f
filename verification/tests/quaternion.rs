use math3d::ApproxEq;
use math3d::EulerTerms;
use math3d::Quaternion;
use math3d::Vector3;
use math3d::consts::UNIT_SCALE;

// The 90-degree yaw rotation at resolution UNIT_SCALE (65536): 46341 is the
// scaled sine and cosine of 45 degrees. Its squared norm, 2 * 46341 * 46341,
// is one count above the squared unit.
const S45: i64 = 46341;
const RQ_NORM2: i64 = 4294976562;

fn right_quat() -> Quaternion {
    Quaternion::new(0, S45, 0, S45)
}

fn left_quat() -> Quaternion {
    Quaternion::new(0, -S45, 0, S45)
}

#[test]
fn constants() {
    assert_eq!(Quaternion::identity(), Quaternion::new(0, 0, 0, 1));
}

#[test]
fn construct() {
    assert_eq!(Quaternion::new(0, 0, 0, 1), Quaternion { x: 0, y: 0, z: 0, w: 1 });
}

#[test]
fn forward() {
    // Rotating carries a factor of the squared norm.
    let v = right_quat().forward();
    assert_eq!(v, Vector3::right().mul_scalar(RQ_NORM2));
}

#[test]
fn right() {
    let v = right_quat().right();
    assert_eq!(v, Vector3::forward().mul_scalar(RQ_NORM2).neg());
}

#[test]
fn up() {
    let v = right_quat().up();
    assert_eq!(v, Vector3::up().mul_scalar(RQ_NORM2));
}

#[test]
fn dot() {
    let d = Quaternion::dot(right_quat(), right_quat());
    assert_eq!(d, RQ_NORM2);

    let d2 = Quaternion::dot(right_quat(), left_quat());
    assert_eq!(d2, 0);
}

#[test]
fn quaternion_approx_eq() {
    // Rotation equality: the dot of a near-unit value with itself clears the
    // scaled threshold; orthogonal rotations do not.
    assert!(right_quat().approx_eq(right_quat()));
    assert!(!right_quat().approx_eq(left_quat()));
    assert!(right_quat().approx_eq(right_quat().normalized()));
}

#[test]
fn quaternion_scale() {
    let q = Quaternion::new(0, 0, 0, 1);
    let q_scaled = Quaternion::scale(q, 2);
    assert_eq!(q_scaled, Quaternion::new(0, 0, 0, 2));
}

#[test]
fn inverse() {
    // The inverse of the 90-degree yaw undoes it: forward goes to the left,
    // with the squared norm of the inverse as the carried factor.
    let inv = right_quat().inverse();
    assert_eq!(inv, Quaternion::new(0, -46340, 0, 46340));

    let v = inv.mul_vec(Vector3::forward());
    assert_eq!(v, Vector3::right().mul_scalar(inv.sqr_magnitude()).neg());
}

#[test]
fn inverse_unit_axis() {
    // At squared norm exactly the squared unit, the inverse is the conjugate.
    let q = Quaternion::new(0, UNIT_SCALE, 0, 0);
    assert_eq!(q.inverse(), Quaternion::new(0, -UNIT_SCALE, 0, 0));
}

#[test]
fn conjugate() {
    let qa = right_quat();
    let qb = left_quat();
    assert_eq!(qa.conjugate().mul(qb.conjugate()), qb.mul(qa).conjugate());
}

#[test]
fn quaternion_magnitude() {
    assert_eq!(right_quat().magnitude(), UNIT_SCALE);
}

#[test]
fn quaternion_sqr_magnitude() {
    assert_eq!(right_quat().sqr_magnitude(), RQ_NORM2);
}

#[test]
fn quaternion_normalized() {
    // A general value keeps its direction and comes out at unit resolution.
    let q = Quaternion::new(3, 4, 0, 0).normalized();
    assert_eq!(q, Quaternion::new(39321, 52428, 0, 0));
    assert_eq!(q.magnitude(), UNIT_SCALE - 1);

    // A value already at unit norm is unchanged.
    assert_eq!(right_quat().normalized(), right_quat());
}

#[test]
fn normalize() {
    let mut q = Quaternion::new(3, 4, 0, 0);
    q.normalize();
    assert_eq!(q, Quaternion::new(39321, 52428, 0, 0));
}

#[test]
fn quaternion_lerp() {
    let q0 = left_quat();
    let q2 = right_quat();

    assert_eq!(Quaternion::lerp(q0, q2, 0, 1), q0);
    assert_eq!(Quaternion::lerp(q0, q2, 1, 1), q2);
    // The ratio is clamped into the unit interval.
    assert_eq!(Quaternion::lerp(q0, q2, -1, 1), q0);
    assert_eq!(Quaternion::lerp(q0, q2, 2, 1), q2);
}

#[test]
fn quaternion_lerp_unclamped() {
    let q0 = left_quat();
    let q2 = right_quat();

    assert_eq!(Quaternion::lerp_unclamped(q0, q2, 0, 1), q0);
    assert_eq!(Quaternion::lerp_unclamped(q0, q2, 1, 1), q2);
}

#[test]
fn quaternion_lerp_midpoint() {
    let a = Quaternion::new(0, -2, 0, 2);
    let b = Quaternion::new(0, 2, 0, 2);
    assert_eq!(Quaternion::lerp(a, b, 1, 2), Quaternion::new(0, 0, 0, 2));
}

#[test]
fn add_quaternion() {
    let q = right_quat().add(right_quat());
    assert_eq!(q, Quaternion::new(0, 2 * S45, 0, 2 * S45));
}

#[test]
fn sub_quaternion() {
    let q = right_quat().sub(right_quat());

    assert_eq!(q.x, 0);
    assert_eq!(q.y, 0);
    assert_eq!(q.z, 0);
    assert_eq!(q.w, 0);
}

#[test]
fn mul_quaternion() {
    // Two 90-degree yaws compose into the 180-degree yaw, at the product of
    // the scales.
    let q = right_quat().mul(right_quat());
    assert_eq!(q, Quaternion::new(0, RQ_NORM2, 0, 0));
}

#[test]
fn mul_quaternion_vector() {
    let v_rot = right_quat().mul_vec(Vector3::forward());
    assert_eq!(v_rot, Vector3::right().mul_scalar(RQ_NORM2));
}

#[test]
fn mul_quaternion_scalar() {
    let q = Quaternion::scale(Quaternion::new(0, 0, 0, 1), 2);
    assert_eq!(q, Quaternion::new(0, 0, 0, 2));
}

#[test]
fn from_euler_parts() {
    // A pure yaw of 90 degrees: half-angle sines and cosines of 45 degrees
    // at unit resolution, zero pitch and roll. The combination carries two
    // factors of the unit scale.
    let q = Quaternion::from_euler_parts(0, UNIT_SCALE, S45, S45, 0, UNIT_SCALE);
    assert_eq!(q.x, 0);
    assert_eq!(q.y, S45 * UNIT_SCALE * UNIT_SCALE);
    assert_eq!(q.z, 0);
    assert_eq!(q.w, S45 * UNIT_SCALE * UNIT_SCALE);
}

#[test]
fn from_half_angle() {
    // 90 degrees about the up axis: the 90-degree yaw quaternion, which
    // takes forward to the right.
    let q = Quaternion::from_half_angle(S45, S45, Vector3::up());
    assert_eq!(q, right_quat());
    assert_eq!(q.mul_vec(Vector3::forward()), Vector3::right().mul_scalar(RQ_NORM2));
}

#[test]
fn slerp_blend() {
    let q0 = left_quat();
    let q2 = right_quat();

    // Whole ratios give the endpoints back exactly.
    assert_eq!(Quaternion::slerp_blend(q0, q2, UNIT_SCALE, 0, UNIT_SCALE), q0);
    assert_eq!(Quaternion::slerp_blend(q0, q2, 0, UNIT_SCALE, UNIT_SCALE), q2);
    // The degenerate midpoint averages the coordinates.
    assert_eq!(Quaternion::slerp_blend(q0, q2, 1, 1, 2), Quaternion::new(0, 0, 0, S45));
}

#[test]
fn to_axis() {
    // The axis of the 90-degree yaw is the up direction, recovered at unit
    // resolution.
    let axis = right_quat().to_axis();
    assert_eq!(axis, Vector3::new(0, 65537, 0));

    // The near-zero-angle fallback keeps the raw vector part.
    let near_identity = Quaternion::new(0, 0, 0, UNIT_SCALE);
    assert_eq!(near_identity.to_axis(), Vector3::zero());
}

#[test]
fn euler_terms() {
    let t = right_quat().euler_terms();
    let expected = EulerTerms {
        unit: RQ_NORM2,
        test: 0,
        locked_up: false,
        locked_down: false,
        yaw_num: RQ_NORM2,
        yaw_den: 0,
        roll_num: 0,
        roll_den: RQ_NORM2,
    };
    assert_eq!(t, expected);
}

#[test]
fn from_basis() {
    // The world basis itself is the identity rotation at unit resolution.
    let q = Quaternion::from_basis(
        Vector3::right().mul_scalar(UNIT_SCALE),
        Vector3::up().mul_scalar(UNIT_SCALE),
        Vector3::forward().mul_scalar(UNIT_SCALE),
    );
    assert_eq!(q, Quaternion::new(0, 0, 0, UNIT_SCALE));

    // The 90-degree yaw basis: right maps to the back, forward to the right.
    let q_yaw = Quaternion::from_basis(
        Vector3::forward().mul_scalar(UNIT_SCALE).neg(),
        Vector3::up().mul_scalar(UNIT_SCALE),
        Vector3::right().mul_scalar(UNIT_SCALE),
    );
    assert_eq!(q_yaw, Quaternion::new(0, 46340, 0, 46340));
}

#[test]
fn composition_identity() {
    let q = right_quat();
    assert_eq!(q.mul(Quaternion::identity()), q);
    assert_eq!(Quaternion::identity().mul(q), q);
}

#[test]
fn rotation_preserves_sqr_magnitude() {
    // A unit quaternion: the 180-degree yaw.
    let q = Quaternion::new(0, 1, 0, 0);
    let v = Vector3::new(3, 4, 12);
    let rotated = q.mul_vec(v);
    assert_eq!(rotated, Vector3::new(-3, 4, -12));
    assert_eq!(rotated.sqr_magnitude(), v.sqr_magnitude());
}

#[test]
fn norm_multiplicative() {
    let a = Quaternion::new(1, 2, 3, 4);
    let b = Quaternion::new(-2, 5, 0, 7);
    let p = a.mul(b);
    assert_eq!(p.sqr_magnitude(), a.sqr_magnitude() * b.sqr_magnitude());
}

#[test]
fn double_cover() {
    // A quaternion and its negation are the same rotation.
    let q = right_quat();
    let neg_q = Quaternion::scale(q, -1);
    let v = Vector3::new(7, -9, 11);
    assert_eq!(neg_q.mul_vec(v), q.mul_vec(v));
}
