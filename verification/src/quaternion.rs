//! Quaternions with exact integer coordinates: the rotation algebra at the
//! core of the library.
//!
//! The mathematical value of a [`Quaternion`] is a [`QuatView`], a quadruple
//! of unbounded integers with `(x, y, z)` the vector part and `w` the scalar
//! part. The Hamilton product, conjugation, the rotation of a vector and the
//! norms are defined on that model, every executable operation is proved to
//! compute its model exactly, and the algebraic laws (identity composition,
//! the conjugation law, multiplicativity of the squared norm, preservation of
//! length under rotation) are proved of the model.

use vstd::prelude::*;

use crate::approx_eq::ApproxEq;
use crate::consts::COORD_LIMIT;
use crate::consts::DOT_EPSILON;
use crate::consts::ROTATE_Q_LIMIT;
use crate::consts::UNIT_SCALE;
use crate::consts::ROTATE_V_LIMIT;
use crate::math::div_trunc;
use crate::math::div_trunc_i64;
use crate::math::isqrt;
use crate::math::lemma_mul_le;
use crate::math::max0;
use crate::math::lemma_square_nonneg;
use crate::math::sqrt_floor;
use crate::vector3::Vec3View;
use crate::vector3::Vector3;

verus! {

/// Mathematical value of a [`Quaternion`]: a quadruple of unbounded
/// integers, `(x, y, z)` the vector part and `w` the scalar part.
pub struct QuatView {
    pub x: int,
    pub y: int,
    pub z: int,
    pub w: int,
}

impl QuatView {
    /// The rotation that does nothing.
    pub open spec fn identity() -> QuatView {
        QuatView { x: 0, y: 0, z: 0, w: 1 }
    }

    /// All coordinates within `[-b, b]`.
    pub open spec fn bounded(self, b: int) -> bool {
        &&& -b <= self.x <= b
        &&& -b <= self.y <= b
        &&& -b <= self.z <= b
        &&& -b <= self.w <= b
    }

    pub open spec fn add(self, other: QuatView) -> QuatView {
        QuatView {
            x: self.x + other.x,
            y: self.y + other.y,
            z: self.z + other.z,
            w: self.w + other.w,
        }
    }

    pub open spec fn sub(self, other: QuatView) -> QuatView {
        QuatView {
            x: self.x - other.x,
            y: self.y - other.y,
            z: self.z - other.z,
            w: self.w - other.w,
        }
    }

    pub open spec fn neg(self) -> QuatView {
        QuatView { x: -self.x, y: -self.y, z: -self.z, w: -self.w }
    }

    /// Every coordinate multiplied by `k`.
    pub open spec fn scaled(self, k: int) -> QuatView {
        QuatView { x: self.x * k, y: self.y * k, z: self.z * k, w: self.w * k }
    }

    /// Every coordinate divided by `k`, truncating toward zero.
    pub open spec fn div_all(self, k: int) -> QuatView {
        QuatView {
            x: div_trunc(self.x, k),
            y: div_trunc(self.y, k),
            z: div_trunc(self.z, k),
            w: div_trunc(self.w, k),
        }
    }

    pub open spec fn dot(self, other: QuatView) -> int {
        self.x * other.x + self.y * other.y + self.z * other.z + self.w * other.w
    }

    /// Squared Euclidean norm.
    pub open spec fn norm2(self) -> int {
        self.dot(self)
    }

    /// Floor of the Euclidean norm.
    pub open spec fn norm(self) -> int {
        sqrt_floor(self.norm2() as nat) as int
    }

    /// Negated vector part, unchanged scalar part.
    pub open spec fn conjugate(self) -> QuatView {
        QuatView { x: -self.x, y: -self.y, z: -self.z, w: self.w }
    }

    /// The conjugate scaled by the squared unit and divided by the squared
    /// norm: the inverse rotation at resolution [`UNIT_SCALE`], for unit and
    /// non-unit inputs alike.
    pub open spec fn inverse(self) -> QuatView {
        self.conjugate().scaled(UNIT_SCALE * UNIT_SCALE).div_all(self.norm2())
    }

    /// The same rotation at resolution [`UNIT_SCALE`]: every coordinate
    /// scaled by [`UNIT_SCALE`] and divided by the norm floor, so the
    /// result's norm is close to [`UNIT_SCALE`]. The division is not
    /// guarded: the value is unspecified when the norm is zero.
    pub open spec fn normalized(self) -> QuatView {
        self.scaled(UNIT_SCALE as int).div_all(self.norm())
    }

    /// The Hamilton product; applying `other` and then `self` as rotations.
    pub open spec fn mul(self, other: QuatView) -> QuatView {
        QuatView {
            x: self.w * other.x + self.x * other.w + self.y * other.z - self.z * other.y,
            y: self.w * other.y - self.x * other.z + self.y * other.w + self.z * other.x,
            z: self.w * other.z + self.x * other.y - self.y * other.x + self.z * other.w,
            w: self.w * other.w - self.x * other.x - self.y * other.y - self.z * other.z,
        }
    }

    /// A vector as a quaternion with zero scalar part.
    pub open spec fn from_vector(v: Vec3View) -> QuatView {
        QuatView { x: v.x, y: v.y, z: v.z, w: 0 }
    }

    /// The vector part.
    pub open spec fn vector_part(self) -> Vec3View {
        Vec3View { x: self.x, y: self.y, z: self.z }
    }

    /// Rotation of `v` by `self`, in the expanded form the executable code
    /// computes; equal to the vector part of `self * (v, 0) * conjugate(self)`
    /// (see [`lemma_rotate_is_conjugation`]). The result carries a factor of
    /// the squared norm: it is the rotated vector exactly when the norm is
    /// one.
    pub open spec fn rotate(self, v: Vec3View) -> Vec3View {
        let x2 = 2 * self.x;
        let y2 = 2 * self.y;
        let z2 = 2 * self.z;
        let w2 = 2 * self.w;
        let xx = self.x * self.x;
        let yy = self.y * self.y;
        let zz = self.z * self.z;
        let ww = self.w * self.w;
        Vec3View {
            x: ww * v.x + y2 * self.w * v.z - z2 * self.w * v.y + xx * v.x + y2 * self.x
                * v.y + z2 * self.x * v.z - zz * v.x - yy * v.x,
            y: x2 * self.y * v.x + yy * v.y + z2 * self.y * v.z + w2 * self.z * v.x - zz
                * v.y + ww * v.y - x2 * self.w * v.z - xx * v.y,
            z: x2 * self.z * v.x + y2 * self.z * v.y + zz * v.z - w2 * self.y * v.x - yy
                * v.z + w2 * self.x * v.y - xx * v.z + ww * v.z,
        }
    }

    /// Blend of `self` toward `other` by the ratio `num / den`, truncating:
    /// each coordinate is `(self * (den - num) + other * num) / den`.
    pub open spec fn lerp(self, other: QuatView, num: int, den: int) -> QuatView {
        QuatView {
            x: div_trunc(self.x * (den - num) + other.x * num, den),
            y: div_trunc(self.y * (den - num) + other.y * num, den),
            z: div_trunc(self.z * (den - num) + other.z * num, den),
            w: div_trunc(self.w * (den - num) + other.w * num, den),
        }
    }

    /// The rotation axis at resolution [`UNIT_SCALE`], for a unit quaternion
    /// at that resolution: the vector part scaled by the unit and divided by
    /// the floor of the square root of `UNIT_SCALE^2 - w^2`; when that floor
    /// is zero, the raw vector part.
    pub open spec fn axis(self) -> Vec3View {
        let s = sqrt_floor(max0(UNIT_SCALE * UNIT_SCALE - self.w * self.w) as nat) as int;
        if s == 0 {
            self.vector_part()
        } else {
            self.vector_part().scaled(UNIT_SCALE as int).div_all(s)
        }
    }
}

/// Half the floor square root of a clamped trace term times the unit scale:
/// one coordinate magnitude of the trace-method extraction.
pub open spec fn trace_root(t: int) -> int {
    (sqrt_floor((max0(t) * UNIT_SCALE) as nat) / 2) as int
}

/// The magnitude `m` carrying the sign of `d`; a nonnegative `d` keeps the
/// positive sign.
pub open spec fn carry_sign(d: int, m: int) -> int {
    if d < 0 {
        -m
    } else {
        m
    }
}

/// The exact integer parts of the Euler-angle recovery; the arc functions
/// applied to them stay outside the verified code.
#[derive(Clone, Copy, Debug, PartialEq, Eq, Structural)]
pub struct EulerTerms {
    /// The squared norm of the quaternion.
    pub unit: i64,
    /// The gimbal test `x * y + z * w`.
    pub test: i64,
    /// Pitch saturated at a quarter turn up: `2 * test > unit`.
    pub locked_up: bool,
    /// Pitch saturated at a quarter turn down: `2 * test < -unit`.
    pub locked_down: bool,
    /// Numerator of the yaw arc tangent.
    pub yaw_num: i64,
    /// Denominator of the yaw arc tangent.
    pub yaw_den: i64,
    /// Numerator of the roll arc tangent.
    pub roll_num: i64,
    /// Denominator of the roll arc tangent.
    pub roll_den: i64,
}

/// A quaternion of four exact integer coordinates.
///
/// The derived `==` is exact equality of the coordinates; equality as
/// rotations is the named predicate [`ApproxEq::approx_eq`], the dot product
/// against the scaled tolerance.
#[derive(Clone, Copy, Debug, PartialEq, Eq, Structural)]
pub struct Quaternion {
    pub x: i64,
    pub y: i64,
    pub z: i64,
    pub w: i64,
}

impl View for Quaternion {
    type V = QuatView;

    open spec fn view(&self) -> QuatView {
        QuatView { x: self.x as int, y: self.y as int, z: self.z as int, w: self.w as int }
    }
}

impl Quaternion {
    pub fn new(x: i64, y: i64, z: i64, w: i64) -> (q: Quaternion)
        ensures
            q@ == (QuatView { x: x as int, y: y as int, z: z as int, w: w as int }),
    {
        Quaternion { x, y, z, w }
    }

    /// The rotation that does nothing.
    pub fn identity() -> (q: Quaternion)
        ensures
            q@ == QuatView::identity(),
    {
        Quaternion { x: 0, y: 0, z: 0, w: 1 }
    }

    pub fn add(self, other: Quaternion) -> (r: Quaternion)
        requires
            i64::MIN <= self@.x + other@.x <= i64::MAX,
            i64::MIN <= self@.y + other@.y <= i64::MAX,
            i64::MIN <= self@.z + other@.z <= i64::MAX,
            i64::MIN <= self@.w + other@.w <= i64::MAX,
        ensures
            r@ == self@.add(other@),
    {
        Quaternion {
            x: self.x + other.x,
            y: self.y + other.y,
            z: self.z + other.z,
            w: self.w + other.w,
        }
    }

    pub fn sub(self, other: Quaternion) -> (r: Quaternion)
        requires
            i64::MIN <= self@.x - other@.x <= i64::MAX,
            i64::MIN <= self@.y - other@.y <= i64::MAX,
            i64::MIN <= self@.z - other@.z <= i64::MAX,
            i64::MIN <= self@.w - other@.w <= i64::MAX,
        ensures
            r@ == self@.sub(other@),
    {
        Quaternion {
            x: self.x - other.x,
            y: self.y - other.y,
            z: self.z - other.z,
            w: self.w - other.w,
        }
    }

    /// Every coordinate multiplied by `scale`.
    pub fn scale(q: Quaternion, scale: i64) -> (r: Quaternion)
        requires
            q@.bounded(COORD_LIMIT as int),
            -COORD_LIMIT <= scale <= COORD_LIMIT,
        ensures
            r@ == q@.scaled(scale as int),
    {
        proof {
            lemma_mul_le(q@.x, scale as int, COORD_LIMIT as int, COORD_LIMIT as int);
            lemma_mul_le(q@.y, scale as int, COORD_LIMIT as int, COORD_LIMIT as int);
            lemma_mul_le(q@.z, scale as int, COORD_LIMIT as int, COORD_LIMIT as int);
            lemma_mul_le(q@.w, scale as int, COORD_LIMIT as int, COORD_LIMIT as int);
        }
        Quaternion { x: q.x * scale, y: q.y * scale, z: q.z * scale, w: q.w * scale }
    }

    pub fn dot(a: Quaternion, b: Quaternion) -> (r: i64)
        requires
            a@.bounded(COORD_LIMIT as int),
            b@.bounded(COORD_LIMIT as int),
        ensures
            r == a@.dot(b@),
    {
        proof {
            lemma_mul_le(a@.x, b@.x, COORD_LIMIT as int, COORD_LIMIT as int);
            lemma_mul_le(a@.y, b@.y, COORD_LIMIT as int, COORD_LIMIT as int);
            lemma_mul_le(a@.z, b@.z, COORD_LIMIT as int, COORD_LIMIT as int);
            lemma_mul_le(a@.w, b@.w, COORD_LIMIT as int, COORD_LIMIT as int);
        }
        a.x * b.x + a.y * b.y + a.z * b.z + a.w * b.w
    }

    /// Negated vector part, unchanged scalar part.
    pub fn conjugate(&self) -> (r: Quaternion)
        requires
            self@.x > i64::MIN,
            self@.y > i64::MIN,
            self@.z > i64::MIN,
        ensures
            r@ == self@.conjugate(),
    {
        Quaternion { x: -self.x, y: -self.y, z: -self.z, w: self.w }
    }

    /// The conjugate scaled by the squared unit and divided, truncating, by
    /// the squared norm: the inverse rotation at resolution [`UNIT_SCALE`].
    /// The zero quaternion is excluded: its squared norm is zero, and exact
    /// arithmetic has no non-finite value for a division by zero to fall
    /// back on.
    pub fn inverse(&self) -> (r: Quaternion)
        requires
            self@.bounded(COORD_LIMIT as int),
            self@.norm2() != 0,
        ensures
            r@ == self@.inverse(),
    {
        let sqr_norm = self.sqr_magnitude();
        let s2 = UNIT_SCALE * UNIT_SCALE;
        proof {
            lemma_mul_le(-self@.x, UNIT_SCALE * UNIT_SCALE, COORD_LIMIT as int,
                0x1_0000_0000);
            lemma_mul_le(-self@.y, UNIT_SCALE * UNIT_SCALE, COORD_LIMIT as int,
                0x1_0000_0000);
            lemma_mul_le(-self@.z, UNIT_SCALE * UNIT_SCALE, COORD_LIMIT as int,
                0x1_0000_0000);
            lemma_mul_le(self@.w, UNIT_SCALE * UNIT_SCALE, COORD_LIMIT as int,
                0x1_0000_0000);
        }
        Quaternion {
            x: div_trunc_i64(-self.x * s2, sqr_norm),
            y: div_trunc_i64(-self.y * s2, sqr_norm),
            z: div_trunc_i64(-self.z * s2, sqr_norm),
            w: div_trunc_i64(self.w * s2, sqr_norm),
        }
    }

    pub fn sqr_magnitude(&self) -> (r: i64)
        requires
            self@.bounded(COORD_LIMIT as int),
        ensures
            r == self@.norm2(),
            r >= 0,
    {
        proof {
            lemma_mul_le(self@.x, self@.x, COORD_LIMIT as int, COORD_LIMIT as int);
            lemma_mul_le(self@.y, self@.y, COORD_LIMIT as int, COORD_LIMIT as int);
            lemma_mul_le(self@.z, self@.z, COORD_LIMIT as int, COORD_LIMIT as int);
            lemma_mul_le(self@.w, self@.w, COORD_LIMIT as int, COORD_LIMIT as int);
            lemma_square_nonneg(self@.x);
            lemma_square_nonneg(self@.y);
            lemma_square_nonneg(self@.z);
            lemma_square_nonneg(self@.w);
        }
        self.x * self.x + self.y * self.y + self.z * self.z + self.w * self.w
    }

    /// Floor of the Euclidean norm.
    pub fn magnitude(&self) -> (r: i64)
        requires
            self@.bounded(COORD_LIMIT as int),
        ensures
            r == self@.norm(),
            r >= 0,
            r * r <= self@.norm2() < (r + 1) * (r + 1),
    {
        let n = self.sqr_magnitude();
        let r = isqrt(n as u64);
        proof {
            assert(r * r <= n < (r + 1) * (r + 1));
            assert(r <= n) by (nonlinear_arith)
                requires
                    r * r <= n,
                    r >= 0,
            ;
        }
        r as i64
    }

    /// The same rotation at resolution [`UNIT_SCALE`], by scaled truncating
    /// division with the norm floor. The zero quaternion is excluded: its
    /// norm floor is zero, and exact arithmetic has no non-finite value for
    /// a division by zero to fall back on.
    pub fn normalized(&self) -> (r: Quaternion)
        requires
            self@.bounded(COORD_LIMIT as int),
            self@.norm2() != 0,
        ensures
            r@ == self@.normalized(),
    {
        let mag = self.magnitude();
        proof {
            lemma_square_nonneg(self@.x);
            lemma_square_nonneg(self@.y);
            lemma_square_nonneg(self@.z);
            lemma_square_nonneg(self@.w);
            crate::math::lemma_sqrt_floor_bounds(self@.norm2() as nat);
            let s = sqrt_floor(self@.norm2() as nat);
            assert(mag * mag == s * s);
            assert(mag > 0) by (nonlinear_arith)
                requires
                    mag >= 0,
                    self@.norm2() < (mag + 1) * (mag + 1),
                    self@.norm2() >= 1,
            ;
            lemma_mul_le(self@.x, UNIT_SCALE as int, COORD_LIMIT as int,
                UNIT_SCALE as int);
            lemma_mul_le(self@.y, UNIT_SCALE as int, COORD_LIMIT as int,
                UNIT_SCALE as int);
            lemma_mul_le(self@.z, UNIT_SCALE as int, COORD_LIMIT as int,
                UNIT_SCALE as int);
            lemma_mul_le(self@.w, UNIT_SCALE as int, COORD_LIMIT as int,
                UNIT_SCALE as int);
        }
        Quaternion {
            x: div_trunc_i64(self.x * UNIT_SCALE, mag),
            y: div_trunc_i64(self.y * UNIT_SCALE, mag),
            z: div_trunc_i64(self.z * UNIT_SCALE, mag),
            w: div_trunc_i64(self.w * UNIT_SCALE, mag),
        }
    }

    /// In-place form of [`Quaternion::normalized`].
    pub fn normalize(&mut self)
        requires
            old(self)@.bounded(COORD_LIMIT as int),
            old(self)@.norm2() != 0,
        ensures
            final(self)@ == old(self)@.normalized(),
    {
        *self = self.normalized();
    }

    /// The Hamilton product; applying `other` and then `self` as rotations.
    pub fn mul(self, other: Quaternion) -> (r: Quaternion)
        requires
            self@.bounded(COORD_LIMIT as int),
            other@.bounded(COORD_LIMIT as int),
        ensures
            r@ == self@.mul(other@),
    {
        proof {
            lemma_mul_le(self@.w, other@.x, COORD_LIMIT as int, COORD_LIMIT as int);
            lemma_mul_le(self@.x, other@.w, COORD_LIMIT as int, COORD_LIMIT as int);
            lemma_mul_le(self@.y, other@.z, COORD_LIMIT as int, COORD_LIMIT as int);
            lemma_mul_le(self@.z, other@.y, COORD_LIMIT as int, COORD_LIMIT as int);
            lemma_mul_le(self@.w, other@.y, COORD_LIMIT as int, COORD_LIMIT as int);
            lemma_mul_le(self@.x, other@.z, COORD_LIMIT as int, COORD_LIMIT as int);
            lemma_mul_le(self@.y, other@.w, COORD_LIMIT as int, COORD_LIMIT as int);
            lemma_mul_le(self@.z, other@.x, COORD_LIMIT as int, COORD_LIMIT as int);
            lemma_mul_le(self@.w, other@.z, COORD_LIMIT as int, COORD_LIMIT as int);
            lemma_mul_le(self@.x, other@.y, COORD_LIMIT as int, COORD_LIMIT as int);
            lemma_mul_le(self@.y, other@.x, COORD_LIMIT as int, COORD_LIMIT as int);
            lemma_mul_le(self@.z, other@.w, COORD_LIMIT as int, COORD_LIMIT as int);
            lemma_mul_le(self@.w, other@.w, COORD_LIMIT as int, COORD_LIMIT as int);
            lemma_mul_le(self@.x, other@.x, COORD_LIMIT as int, COORD_LIMIT as int);
            lemma_mul_le(self@.y, other@.y, COORD_LIMIT as int, COORD_LIMIT as int);
            lemma_mul_le(self@.z, other@.z, COORD_LIMIT as int, COORD_LIMIT as int);
        }
        Quaternion {
            x: self.w * other.x + self.x * other.w + self.y * other.z - self.z * other.y,
            y: self.w * other.y - self.x * other.z + self.y * other.w + self.z * other.x,
            z: self.w * other.z + self.x * other.y - self.y * other.x + self.z * other.w,
            w: self.w * other.w - self.x * other.x - self.y * other.y - self.z * other.z,
        }
    }

    /// Rotation of `other` by `self`, computed in the expanded form rather
    /// than as two Hamilton products; the result carries a factor of the
    /// squared norm.
    pub fn mul_vec(self, other: Vector3) -> (r: Vector3)
        requires
            self@.bounded(ROTATE_Q_LIMIT as int),
            other@.bounded(ROTATE_V_LIMIT as int),
        ensures
            r@ == self@.rotate(other@),
    {
        let x2 = self.x + self.x;
        let y2 = self.y + self.y;
        let z2 = self.z + self.z;
        let w2 = self.w + self.w;
        proof {
            lemma_mul_le(self@.x, self@.x, 0x100_0000, 0x100_0000);
            lemma_mul_le(self@.y, self@.y, 0x100_0000, 0x100_0000);
            lemma_mul_le(self@.z, self@.z, 0x100_0000, 0x100_0000);
            lemma_mul_le(self@.w, self@.w, 0x100_0000, 0x100_0000);
        }
        let xx = self.x * self.x;
        let yy = self.y * self.y;
        let zz = self.z * self.z;
        let ww = self.w * self.w;
        proof {
            lemma_mul_le(xx as int, other@.x, 0x1_0000_0000_0000, 0x800);
            lemma_mul_le(xx as int, other@.y, 0x1_0000_0000_0000, 0x800);
            lemma_mul_le(xx as int, other@.z, 0x1_0000_0000_0000, 0x800);
            lemma_mul_le(yy as int, other@.x, 0x1_0000_0000_0000, 0x800);
            lemma_mul_le(yy as int, other@.y, 0x1_0000_0000_0000, 0x800);
            lemma_mul_le(yy as int, other@.z, 0x1_0000_0000_0000, 0x800);
            lemma_mul_le(zz as int, other@.x, 0x1_0000_0000_0000, 0x800);
            lemma_mul_le(zz as int, other@.y, 0x1_0000_0000_0000, 0x800);
            lemma_mul_le(zz as int, other@.z, 0x1_0000_0000_0000, 0x800);
            lemma_mul_le(ww as int, other@.x, 0x1_0000_0000_0000, 0x800);
            lemma_mul_le(ww as int, other@.y, 0x1_0000_0000_0000, 0x800);
            lemma_mul_le(ww as int, other@.z, 0x1_0000_0000_0000, 0x800);
        }
        let xx_x = xx * other.x;
        let xx_y = xx * other.y;
        let xx_z = xx * other.z;
        let yy_x = yy * other.x;
        let yy_y = yy * other.y;
        let yy_z = yy * other.z;
        let zz_x = zz * other.x;
        let zz_y = zz * other.y;
        let zz_z = zz * other.z;
        let ww_x = ww * other.x;
        let ww_y = ww * other.y;
        let ww_z = ww * other.z;
        proof {
            lemma_mul_le(y2 as int, self@.w, 0x200_0000, 0x100_0000);
            lemma_mul_le(z2 as int, self@.w, 0x200_0000, 0x100_0000);
            lemma_mul_le(y2 as int, self@.x, 0x200_0000, 0x100_0000);
            lemma_mul_le(z2 as int, self@.x, 0x200_0000, 0x100_0000);
            lemma_mul_le(x2 as int, self@.y, 0x200_0000, 0x100_0000);
            lemma_mul_le(z2 as int, self@.y, 0x200_0000, 0x100_0000);
            lemma_mul_le(w2 as int, self@.z, 0x200_0000, 0x100_0000);
            lemma_mul_le(x2 as int, self@.w, 0x200_0000, 0x100_0000);
            lemma_mul_le(x2 as int, self@.z, 0x200_0000, 0x100_0000);
            lemma_mul_le(y2 as int, self@.z, 0x200_0000, 0x100_0000);
            lemma_mul_le(w2 as int, self@.y, 0x200_0000, 0x100_0000);
            lemma_mul_le(w2 as int, self@.x, 0x200_0000, 0x100_0000);
        }
        let yw2 = y2 * self.w;
        let zw2 = z2 * self.w;
        let yx2 = y2 * self.x;
        let zx2 = z2 * self.x;
        let xy2 = x2 * self.y;
        let zy2 = z2 * self.y;
        let wz2 = w2 * self.z;
        let xw2 = x2 * self.w;
        let xz2 = x2 * self.z;
        let yz2 = y2 * self.z;
        let wy2 = w2 * self.y;
        let wx2 = w2 * self.x;
        proof {
            lemma_mul_le(yw2 as int, other@.z, 0x2_0000_0000_0000, 0x800);
            lemma_mul_le(zw2 as int, other@.y, 0x2_0000_0000_0000, 0x800);
            lemma_mul_le(yx2 as int, other@.y, 0x2_0000_0000_0000, 0x800);
            lemma_mul_le(zx2 as int, other@.z, 0x2_0000_0000_0000, 0x800);
            lemma_mul_le(xy2 as int, other@.x, 0x2_0000_0000_0000, 0x800);
            lemma_mul_le(zy2 as int, other@.z, 0x2_0000_0000_0000, 0x800);
            lemma_mul_le(wz2 as int, other@.x, 0x2_0000_0000_0000, 0x800);
            lemma_mul_le(xw2 as int, other@.z, 0x2_0000_0000_0000, 0x800);
            lemma_mul_le(xz2 as int, other@.x, 0x2_0000_0000_0000, 0x800);
            lemma_mul_le(yz2 as int, other@.y, 0x2_0000_0000_0000, 0x800);
            lemma_mul_le(wy2 as int, other@.x, 0x2_0000_0000_0000, 0x800);
            lemma_mul_le(wx2 as int, other@.y, 0x2_0000_0000_0000, 0x800);
        }
        Vector3 {
            x: ww_x + yw2 * other.z - zw2 * other.y + xx_x + yx2 * other.y + zx2 * other.z
                - zz_x - yy_x,
            y: xy2 * other.x + yy_y + zy2 * other.z + wz2 * other.x - zz_y + ww_y - xw2
                * other.z - xx_y,
            z: xz2 * other.x + yz2 * other.y + zz_z - wy2 * other.x - yy_z + wx2 * other.y
                - xx_z + ww_z,
        }
    }

    /// The world forward axis rotated by `self`.
    pub fn forward(&self) -> (r: Vector3)
        requires
            self@.bounded(ROTATE_Q_LIMIT as int),
        ensures
            r@ == self@.rotate(Vec3View { x: 0, y: 0, z: 1 }),
    {
        self.mul_vec(Vector3::forward())
    }

    /// The world right axis rotated by `self`.
    pub fn right(&self) -> (r: Vector3)
        requires
            self@.bounded(ROTATE_Q_LIMIT as int),
        ensures
            r@ == self@.rotate(Vec3View { x: 1, y: 0, z: 0 }),
    {
        self.mul_vec(Vector3::right())
    }

    /// The world up axis rotated by `self`.
    pub fn up(&self) -> (r: Vector3)
        requires
            self@.bounded(ROTATE_Q_LIMIT as int),
        ensures
            r@ == self@.rotate(Vec3View { x: 0, y: 1, z: 0 }),
    {
        self.mul_vec(Vector3::up())
    }

    /// Blend from `from` toward `to` by `t_num / t_den`, with the ratio
    /// clamped into `[0, 1]` first.
    pub fn lerp(from: Quaternion, to: Quaternion, t_num: i64, t_den: i64) -> (r: Quaternion)
        requires
            t_den > 0,
            from@.bounded(COORD_LIMIT as int),
            to@.bounded(COORD_LIMIT as int),
            t_den <= COORD_LIMIT,
        ensures
            t_num < 0 ==> r@ == from@.lerp(to@, 0, t_den as int),
            0 <= t_num <= t_den ==> r@ == from@.lerp(to@, t_num as int, t_den as int),
            t_num > t_den ==> r@ == from@.lerp(to@, t_den as int, t_den as int),
    {
        let alpha = if t_num < 0 {
            0
        } else if t_num > t_den {
            t_den
        } else {
            t_num
        };
        Quaternion::lerp_unclamped(from, to, alpha, t_den)
    }

    /// Blend from `from` toward `to` by the unclamped ratio `t_num / t_den`:
    /// each coordinate is `(from * (t_den - t_num) + to * t_num) / t_den`.
    pub fn lerp_unclamped(from: Quaternion, to: Quaternion, t_num: i64, t_den: i64) -> (r:
        Quaternion)
        requires
            t_den > 0,
            from@.bounded(COORD_LIMIT as int),
            to@.bounded(COORD_LIMIT as int),
            -COORD_LIMIT <= t_num <= COORD_LIMIT,
            t_den <= COORD_LIMIT,
        ensures
            r@ == from@.lerp(to@, t_num as int, t_den as int),
    {
        proof {
            lemma_mul_le(from@.x, t_den - t_num, COORD_LIMIT as int, 0x8000_0000);
            lemma_mul_le(from@.y, t_den - t_num, COORD_LIMIT as int, 0x8000_0000);
            lemma_mul_le(from@.z, t_den - t_num, COORD_LIMIT as int, 0x8000_0000);
            lemma_mul_le(from@.w, t_den - t_num, COORD_LIMIT as int, 0x8000_0000);
            lemma_mul_le(to@.x, t_num as int, COORD_LIMIT as int, COORD_LIMIT as int);
            lemma_mul_le(to@.y, t_num as int, COORD_LIMIT as int, COORD_LIMIT as int);
            lemma_mul_le(to@.z, t_num as int, COORD_LIMIT as int, COORD_LIMIT as int);
            lemma_mul_le(to@.w, t_num as int, COORD_LIMIT as int, COORD_LIMIT as int);
            lemma_div_trunc_args(from@, to@, t_num as int, t_den as int);
        }
        Quaternion {
            x: div_trunc_i64(from.x * (t_den - t_num) + to.x * t_num, t_den),
            y: div_trunc_i64(from.y * (t_den - t_num) + to.y * t_num, t_den),
            z: div_trunc_i64(from.z * (t_den - t_num) + to.z * t_num, t_den),
            w: div_trunc_i64(from.w * (t_den - t_num) + to.w * t_num, t_den),
        }
    }

    /// Combines half-angle sines and cosines into the quaternion of a
    /// pitch/yaw/roll triple: the sign-pattern polynomial of the rotation
    /// order, verified exactly. Evaluating the sines and cosines themselves
    /// stays outside the verified code.
    pub fn from_euler_parts(
        sin_x: i64,
        cos_x: i64,
        sin_y: i64,
        cos_y: i64,
        sin_z: i64,
        cos_z: i64,
    ) -> (q: Quaternion)
        requires
            -0x10_0000 <= sin_x <= 0x10_0000,
            -0x10_0000 <= cos_x <= 0x10_0000,
            -0x10_0000 <= sin_y <= 0x10_0000,
            -0x10_0000 <= cos_y <= 0x10_0000,
            -0x10_0000 <= sin_z <= 0x10_0000,
            -0x10_0000 <= cos_z <= 0x10_0000,
        ensures
            q@.x == cos_y * sin_z * cos_x - sin_y * sin_z * sin_x,
            q@.y == sin_y * cos_z * cos_x - sin_y * sin_z * cos_x,
            q@.z == cos_y * cos_z * sin_x + sin_y * cos_z * sin_x,
            q@.w == cos_y * cos_z * cos_x + cos_y * sin_z * sin_x,
    {
        proof {
            lemma_mul_le(cos_y as int, sin_z as int, 0x10_0000, 0x10_0000);
            lemma_mul_le(sin_y as int, sin_z as int, 0x10_0000, 0x10_0000);
            lemma_mul_le(sin_y as int, cos_z as int, 0x10_0000, 0x10_0000);
            lemma_mul_le(cos_y as int, cos_z as int, 0x10_0000, 0x10_0000);
        }
        let cy_sz = cos_y * sin_z;
        let sy_sz = sin_y * sin_z;
        let sy_cz = sin_y * cos_z;
        let cy_cz = cos_y * cos_z;
        proof {
            lemma_mul_le(cy_sz as int, cos_x as int, 0x100_0000_0000, 0x10_0000);
            lemma_mul_le(sy_sz as int, sin_x as int, 0x100_0000_0000, 0x10_0000);
            lemma_mul_le(sy_cz as int, cos_x as int, 0x100_0000_0000, 0x10_0000);
            lemma_mul_le(sy_sz as int, cos_x as int, 0x100_0000_0000, 0x10_0000);
            lemma_mul_le(cy_cz as int, sin_x as int, 0x100_0000_0000, 0x10_0000);
            lemma_mul_le(sy_cz as int, sin_x as int, 0x100_0000_0000, 0x10_0000);
            lemma_mul_le(cy_cz as int, cos_x as int, 0x100_0000_0000, 0x10_0000);
            lemma_mul_le(cy_sz as int, sin_x as int, 0x100_0000_0000, 0x10_0000);
        }
        Quaternion {
            x: cy_sz * cos_x - sy_sz * sin_x,
            y: sy_cz * cos_x - sy_sz * cos_x,
            z: cy_cz * sin_x + sy_cz * sin_x,
            w: cy_cz * cos_x + cy_sz * sin_x,
        }
    }

    /// Combines the sine and cosine of a half angle with a rotation axis:
    /// the axis-angle construction, verified exactly. The trigonometry on
    /// the half angle stays outside the verified code.
    pub fn from_half_angle(sin_half: i64, cos_half: i64, axis: Vector3) -> (q: Quaternion)
        requires
            -COORD_LIMIT <= sin_half <= COORD_LIMIT,
            axis@.bounded(COORD_LIMIT as int),
        ensures
            q@.x == axis@.x * sin_half,
            q@.y == axis@.y * sin_half,
            q@.z == axis@.z * sin_half,
            q@.w == cos_half,
    {
        proof {
            lemma_mul_le(axis@.x, sin_half as int, COORD_LIMIT as int, COORD_LIMIT as int);
            lemma_mul_le(axis@.y, sin_half as int, COORD_LIMIT as int, COORD_LIMIT as int);
            lemma_mul_le(axis@.z, sin_half as int, COORD_LIMIT as int, COORD_LIMIT as int);
        }
        Quaternion {
            x: axis.x * sin_half,
            y: axis.y * sin_half,
            z: axis.z * sin_half,
            w: cos_half,
        }
    }

    /// The spherical-interpolation blend `(from * ratio_a + b * ratio_b) /
    /// den`, truncating. The coincidence guard, the shortest-path
    /// correction (a dot product and an inverse) and the degenerate
    /// midpoint are likewise exact integer work over this library; only the
    /// arc cosine and the sines that produce the two ratios stay outside.
    pub fn slerp_blend(
        from: Quaternion,
        b: Quaternion,
        ratio_a: i64,
        ratio_b: i64,
        den: i64,
    ) -> (r: Quaternion)
        requires
            den > 0,
            from@.bounded(COORD_LIMIT as int),
            b@.bounded(COORD_LIMIT as int),
            -COORD_LIMIT <= ratio_a <= COORD_LIMIT,
            -COORD_LIMIT <= ratio_b <= COORD_LIMIT,
        ensures
            r@.x == div_trunc(from@.x * ratio_a + b@.x * ratio_b, den as int),
            r@.y == div_trunc(from@.y * ratio_a + b@.y * ratio_b, den as int),
            r@.z == div_trunc(from@.z * ratio_a + b@.z * ratio_b, den as int),
            r@.w == div_trunc(from@.w * ratio_a + b@.w * ratio_b, den as int),
    {
        proof {
            lemma_mul_le(from@.x, ratio_a as int, COORD_LIMIT as int, COORD_LIMIT as int);
            lemma_mul_le(from@.y, ratio_a as int, COORD_LIMIT as int, COORD_LIMIT as int);
            lemma_mul_le(from@.z, ratio_a as int, COORD_LIMIT as int, COORD_LIMIT as int);
            lemma_mul_le(from@.w, ratio_a as int, COORD_LIMIT as int, COORD_LIMIT as int);
            lemma_mul_le(b@.x, ratio_b as int, COORD_LIMIT as int, COORD_LIMIT as int);
            lemma_mul_le(b@.y, ratio_b as int, COORD_LIMIT as int, COORD_LIMIT as int);
            lemma_mul_le(b@.z, ratio_b as int, COORD_LIMIT as int, COORD_LIMIT as int);
            lemma_mul_le(b@.w, ratio_b as int, COORD_LIMIT as int, COORD_LIMIT as int);
        }
        Quaternion {
            x: div_trunc_i64(from.x * ratio_a + b.x * ratio_b, den),
            y: div_trunc_i64(from.y * ratio_a + b.y * ratio_b, den),
            z: div_trunc_i64(from.z * ratio_a + b.z * ratio_b, den),
            w: div_trunc_i64(from.w * ratio_a + b.w * ratio_b, den),
        }
    }

    /// The rotation axis at resolution [`UNIT_SCALE`], recovered from a
    /// unit quaternion at that resolution: the fixed-point square root and
    /// the near-zero fallback of the angle-axis conversion. The angle,
    /// twice an arc cosine of the scalar part, stays outside; a value that
    /// has drifted above unit norm is renormalized by the caller first.
    pub fn to_axis(&self) -> (r: Vector3)
        requires
            self@.bounded(COORD_LIMIT as int),
            -UNIT_SCALE <= self@.w <= UNIT_SCALE,
        ensures
            r@ == self@.axis(),
    {
        proof {
            lemma_mul_le(self@.w, self@.w, UNIT_SCALE as int, UNIT_SCALE as int);
            lemma_square_nonneg(self@.w);
        }
        let ss = UNIT_SCALE * UNIT_SCALE - self.w * self.w;
        let s = isqrt(ss as u64);
        if s == 0 {
            Vector3 { x: self.x, y: self.y, z: self.z }
        } else {
            proof {
                assert(s <= 0x1_0000) by (nonlinear_arith)
                    requires
                        s * s <= 0x1_0000_0000,
                        s >= 0,
                ;
                lemma_mul_le(self@.x, UNIT_SCALE as int, COORD_LIMIT as int,
                    UNIT_SCALE as int);
                lemma_mul_le(self@.y, UNIT_SCALE as int, COORD_LIMIT as int,
                    UNIT_SCALE as int);
                lemma_mul_le(self@.z, UNIT_SCALE as int, COORD_LIMIT as int,
                    UNIT_SCALE as int);
            }
            Vector3 {
                x: div_trunc_i64(self.x * UNIT_SCALE, s as i64),
                y: div_trunc_i64(self.y * UNIT_SCALE, s as i64),
                z: div_trunc_i64(self.z * UNIT_SCALE, s as i64),
            }
        }
    }

    /// The exact parts of the Euler-angle recovery: the squared norm, the
    /// gimbal test with its saturation flags, and the numerators and
    /// denominators whose arc tangents give yaw and roll. The pitch is the
    /// arc sine of `2 * test / unit`; in a saturated branch yaw comes from
    /// an arc tangent of the raw coordinates and roll is zero. All the arc
    /// functions stay outside the verified code.
    pub fn euler_terms(&self) -> (r: EulerTerms)
        requires
            self@.bounded(COORD_LIMIT as int),
        ensures
            r.unit == self@.norm2(),
            r.test == self@.x * self@.y + self@.z * self@.w,
            r.locked_up == (2 * (self@.x * self@.y + self@.z * self@.w) > self@.norm2()),
            r.locked_down == (2 * (self@.x * self@.y + self@.z * self@.w)
                < -self@.norm2()),
            r.yaw_num == 2 * (self@.y * self@.w) - 2 * (self@.x * self@.z),
            r.yaw_den == self@.x * self@.x - self@.y * self@.y - self@.z * self@.z
                + self@.w * self@.w,
            r.roll_num == 2 * (self@.x * self@.w) - 2 * (self@.y * self@.z),
            r.roll_den == -(self@.x * self@.x) + self@.y * self@.y - self@.z * self@.z
                + self@.w * self@.w,
    {
        let unit = self.sqr_magnitude();
        proof {
            lemma_mul_le(self@.x, self@.y, COORD_LIMIT as int, COORD_LIMIT as int);
            lemma_mul_le(self@.z, self@.w, COORD_LIMIT as int, COORD_LIMIT as int);
            lemma_mul_le(self@.y, self@.w, COORD_LIMIT as int, COORD_LIMIT as int);
            lemma_mul_le(self@.x, self@.z, COORD_LIMIT as int, COORD_LIMIT as int);
            lemma_mul_le(self@.x, self@.w, COORD_LIMIT as int, COORD_LIMIT as int);
            lemma_mul_le(self@.y, self@.z, COORD_LIMIT as int, COORD_LIMIT as int);
            lemma_mul_le(self@.x, self@.x, COORD_LIMIT as int, COORD_LIMIT as int);
            lemma_mul_le(self@.y, self@.y, COORD_LIMIT as int, COORD_LIMIT as int);
            lemma_mul_le(self@.z, self@.z, COORD_LIMIT as int, COORD_LIMIT as int);
            lemma_mul_le(self@.w, self@.w, COORD_LIMIT as int, COORD_LIMIT as int);
        }
        let test = self.x * self.y + self.z * self.w;
        let yw = self.y * self.w;
        let xz = self.x * self.z;
        let xw = self.x * self.w;
        let yz = self.y * self.z;
        let xx = self.x * self.x;
        let yy = self.y * self.y;
        let zz = self.z * self.z;
        let ww = self.w * self.w;
        EulerTerms {
            unit,
            test,
            locked_up: test + test > unit,
            locked_down: test + test < -unit,
            yaw_num: (yw + yw) - (xz + xz),
            yaw_den: xx - yy - zz + ww,
            roll_num: (xw + xw) - (yz + yz),
            roll_den: -xx + yy - zz + ww,
        }
    }

    /// The trace-method extraction of a quaternion from an orthonormal
    /// basis at resolution [`UNIT_SCALE`]: clamped diagonal combinations,
    /// fixed-point square roots, and signs carried over from the
    /// off-diagonal differences. Normalizing the input directions stays
    /// outside the verified code.
    pub fn from_basis(right: Vector3, up: Vector3, forward: Vector3) -> (q: Quaternion)
        requires
            right@.bounded(UNIT_SCALE as int),
            up@.bounded(UNIT_SCALE as int),
            forward@.bounded(UNIT_SCALE as int),
        ensures
            q@.x == carry_sign(up@.z - forward@.y,
                trace_root(UNIT_SCALE + right@.x - up@.y - forward@.z)),
            q@.y == carry_sign(forward@.x - right@.z,
                trace_root(UNIT_SCALE - right@.x + up@.y - forward@.z)),
            q@.z == carry_sign(right@.y - up@.x,
                trace_root(UNIT_SCALE - right@.x - up@.y + forward@.z)),
            q@.w == trace_root(UNIT_SCALE + right@.x + up@.y + forward@.z),
    {
        let mx = Quaternion::trace_component(UNIT_SCALE + right.x - up.y - forward.z);
        let my = Quaternion::trace_component(UNIT_SCALE - right.x + up.y - forward.z);
        let mz = Quaternion::trace_component(UNIT_SCALE - right.x - up.y + forward.z);
        let mw = Quaternion::trace_component(UNIT_SCALE + right.x + up.y + forward.z);
        Quaternion {
            x: if up.z - forward.y < 0 {
                -mx
            } else {
                mx
            },
            y: if forward.x - right.z < 0 {
                -my
            } else {
                my
            },
            z: if right.y - up.x < 0 {
                -mz
            } else {
                mz
            },
            w: mw,
        }
    }

    /// One coordinate magnitude of the trace method: half the fixed-point
    /// square root of a clamped trace term.
    fn trace_component(t: i64) -> (r: i64)
        requires
            -0x4_0000 <= t <= 0x4_0000,
        ensures
            r == trace_root(t as int),
            0 <= r <= 0x1_0000,
    {
        let tc = if t > 0 {
            t
        } else {
            0
        };
        proof {
            lemma_mul_le(tc as int, UNIT_SCALE as int, 0x4_0000, UNIT_SCALE as int);
        }
        let s = isqrt((tc * UNIT_SCALE) as u64);
        proof {
            assert(s <= 0x2_0000) by (nonlinear_arith)
                requires
                    s * s <= 0x4_0000_0000,
                    s >= 0,
            ;
        }
        (s / 2) as i64
    }
}

/// The blend's dividends stay strictly above `i64::MIN`.
proof fn lemma_div_trunc_args(from: QuatView, to: QuatView, num: int, den: int)
    requires
        from.bounded(COORD_LIMIT as int),
        to.bounded(COORD_LIMIT as int),
        -COORD_LIMIT <= num <= COORD_LIMIT,
        0 < den <= COORD_LIMIT,
    ensures
        i64::MIN < from.x * (den - num) + to.x * num <= i64::MAX,
        i64::MIN < from.y * (den - num) + to.y * num <= i64::MAX,
        i64::MIN < from.z * (den - num) + to.z * num <= i64::MAX,
        i64::MIN < from.w * (den - num) + to.w * num <= i64::MAX,
{
    lemma_mul_le(from.x, den - num, COORD_LIMIT as int, 0x8000_0000);
    lemma_mul_le(from.y, den - num, COORD_LIMIT as int, 0x8000_0000);
    lemma_mul_le(from.z, den - num, COORD_LIMIT as int, 0x8000_0000);
    lemma_mul_le(from.w, den - num, COORD_LIMIT as int, 0x8000_0000);
    lemma_mul_le(to.x, num, COORD_LIMIT as int, COORD_LIMIT as int);
    lemma_mul_le(to.y, num, COORD_LIMIT as int, COORD_LIMIT as int);
    lemma_mul_le(to.z, num, COORD_LIMIT as int, COORD_LIMIT as int);
    lemma_mul_le(to.w, num, COORD_LIMIT as int, COORD_LIMIT as int);
}

/// Composing with the identity on either side changes nothing:
/// `q * identity == q` and `identity * q == q`.
pub proof fn lemma_mul_identity(q: QuatView)
    ensures
        q.mul(QuatView::identity()) == q,
        QuatView::identity().mul(q) == q,
{
}

/// A unit quaternion's dot product with itself is one: at resolution
/// [`UNIT_SCALE`], the squared unit.
pub proof fn lemma_unit_dot_self(q: QuatView)
    requires
        q.norm2() == UNIT_SCALE * UNIT_SCALE,
    ensures
        q.dot(q) == UNIT_SCALE * UNIT_SCALE,
{
}

/// For a quaternion of unit norm at resolution [`UNIT_SCALE`], the inverse
/// is exactly the conjugate.
pub proof fn lemma_unit_inverse_is_conjugate(q: QuatView)
    requires
        q.norm2() == UNIT_SCALE * UNIT_SCALE,
    ensures
        q.inverse() == q.conjugate(),
{
    lemma_div_trunc_exact(-q.x, UNIT_SCALE * UNIT_SCALE);
    lemma_div_trunc_exact(-q.y, UNIT_SCALE * UNIT_SCALE);
    lemma_div_trunc_exact(-q.z, UNIT_SCALE * UNIT_SCALE);
    lemma_div_trunc_exact(q.w, UNIT_SCALE * UNIT_SCALE);
}

/// A quaternion whose norm floor is exactly the unit scale normalizes to
/// itself.
pub proof fn lemma_normalized_unit(q: QuatView)
    requires
        q.norm() == UNIT_SCALE,
    ensures
        q.normalized() == q,
{
    lemma_div_trunc_exact(q.x, UNIT_SCALE as int);
    lemma_div_trunc_exact(q.y, UNIT_SCALE as int);
    lemma_div_trunc_exact(q.z, UNIT_SCALE as int);
    lemma_div_trunc_exact(q.w, UNIT_SCALE as int);
}

/// The conjugation law: `conjugate(a) * conjugate(b) == conjugate(b * a)`.
pub proof fn lemma_conjugate_composition(a: QuatView, b: QuatView)
    ensures
        a.conjugate().mul(b.conjugate()) == b.mul(a).conjugate(),
{
    assert(a.w * (-b.x) + (-a.x) * b.w + (-a.y) * (-b.z) - (-a.z) * (-b.y) == -(b.w * a.x
        + b.x * a.w + b.y * a.z - b.z * a.y)) by (nonlinear_arith);
    assert(a.w * (-b.y) - (-a.x) * (-b.z) + (-a.y) * b.w + (-a.z) * (-b.x) == -(b.w * a.y
        - b.x * a.z + b.y * a.w + b.z * a.x)) by (nonlinear_arith);
    assert(a.w * (-b.z) + (-a.x) * (-b.y) - (-a.y) * (-b.x) + (-a.z) * b.w == -(b.w * a.z
        + b.x * a.y - b.y * a.x + b.z * a.w)) by (nonlinear_arith);
    assert(a.w * b.w - (-a.x) * (-b.x) - (-a.y) * (-b.y) - (-a.z) * (-b.z) == b.w * a.w
        - b.x * a.x - b.y * a.y - b.z * a.z) by (nonlinear_arith);
}

/// The squared norm is multiplicative over the Hamilton product:
/// `|a * b|^2 == |a|^2 * |b|^2`.
pub proof fn lemma_norm2_multiplicative(a: QuatView, b: QuatView)
    ensures
        a.mul(b).norm2() == a.norm2() * b.norm2(),
{
    let p = a.mul(b);
    lemma_sq4_pppm(a.w * b.x, a.x * b.w, a.y * b.z, a.z * b.y, p.x);
    lemma_sq4_pppm(a.w * b.y, a.y * b.w, a.z * b.x, a.x * b.z, p.y);
    lemma_sq4_pppm(a.w * b.z, a.x * b.y, a.z * b.w, a.y * b.x, p.z);
    lemma_sq4_pmmm(a.w * b.w, a.x * b.x, a.y * b.y, a.z * b.z, p.w);
    lemma_mul4_aa(a.w, b.x, a.w, b.x);
    lemma_mul4_ab(a.w, b.x, a.x, b.w);
    lemma_mul4_aa(a.w, b.x, a.y, b.z);
    lemma_mul4_aa(a.w, b.x, a.z, b.y);
    lemma_mul4_aa(a.x, b.w, a.x, b.w);
    lemma_mul4_aa(a.x, b.w, a.y, b.z);
    lemma_mul4_aa(a.x, b.w, a.z, b.y);
    lemma_mul4_aa(a.y, b.z, a.y, b.z);
    lemma_mul4_ab(a.y, b.z, a.z, b.y);
    lemma_mul4_aa(a.z, b.y, a.z, b.y);
    lemma_mul4_aa(a.w, b.y, a.w, b.y);
    lemma_mul4_ab(a.w, b.y, a.y, b.w);
    lemma_mul4_ab(a.w, b.y, a.z, b.x);
    lemma_mul4_aa(a.w, b.y, a.x, b.z);
    lemma_mul4_aa(a.y, b.w, a.y, b.w);
    lemma_mul4_aa(a.y, b.w, a.z, b.x);
    lemma_mul4_ba(a.y, b.w, a.x, b.z);
    lemma_mul4_aa(a.z, b.x, a.z, b.x);
    lemma_mul4_ba(a.z, b.x, a.x, b.z);
    lemma_mul4_aa(a.x, b.z, a.x, b.z);
    lemma_mul4_aa(a.w, b.z, a.w, b.z);
    lemma_mul4_ab(a.w, b.z, a.x, b.y);
    lemma_mul4_ab(a.w, b.z, a.z, b.w);
    lemma_mul4_ab(a.w, b.z, a.y, b.x);
    lemma_mul4_aa(a.x, b.y, a.x, b.y);
    lemma_mul4_ab(a.x, b.y, a.z, b.w);
    lemma_mul4_ab(a.x, b.y, a.y, b.x);
    lemma_mul4_aa(a.z, b.w, a.z, b.w);
    lemma_mul4_ba(a.z, b.w, a.y, b.x);
    lemma_mul4_aa(a.y, b.x, a.y, b.x);
    lemma_mul4_aa(a.w, b.w, a.w, b.w);
    lemma_mul4_aa(a.w, b.w, a.x, b.x);
    lemma_mul4_aa(a.w, b.w, a.y, b.y);
    lemma_mul4_aa(a.w, b.w, a.z, b.z);
    lemma_mul4_aa(a.x, b.x, a.x, b.x);
    lemma_mul4_aa(a.x, b.x, a.y, b.y);
    lemma_mul4_aa(a.x, b.x, a.z, b.z);
    lemma_mul4_aa(a.y, b.y, a.y, b.y);
    lemma_mul4_aa(a.y, b.y, a.z, b.z);
    lemma_mul4_aa(a.z, b.z, a.z, b.z);
    lemma_mul_sum4(a.x * a.x, a.y * a.y, a.z * a.z, a.w * a.w, b.x * b.x, b.y * b.y, b.z * b.z, b.w * b.w);
}

/// Conjugation keeps the squared norm.
pub proof fn lemma_conjugate_norm2(q: QuatView)
    ensures
        q.conjugate().norm2() == q.norm2(),
{
    assert((-q.x) * (-q.x) == q.x * q.x) by (nonlinear_arith);
    assert((-q.y) * (-q.y) == q.y * q.y) by (nonlinear_arith);
    assert((-q.z) * (-q.z) == q.z * q.z) by (nonlinear_arith);
}

/// The expanded rotation formula computes the vector part of
/// `q * (v, 0) * conjugate(q)`, whose scalar part is zero.
pub proof fn lemma_rotate_is_conjugation(q: QuatView, v: Vec3View)
    ensures
        q.rotate(v) == q.mul(QuatView::from_vector(v)).mul(q.conjugate()).vector_part(),
        q.mul(QuatView::from_vector(v)).mul(q.conjugate()).w == 0,
{
    let t = q.mul(QuatView::from_vector(v));
    let r = t.mul(q.conjugate());
    lemma_dist3_mmm(q.x * v.x, q.y * v.y, q.z * v.z, -q.x, t.w);
    lemma_regroup_na(q.x, v.x, q.x);
    lemma_regroup_nb(q.y, v.y, q.x);
    lemma_regroup_nb(q.z, v.z, q.x);
    lemma_dist3_ppm(q.w * v.x, q.y * v.z, q.z * v.y, q.w, t.x);
    lemma_regroup_pa(q.w, v.x, q.w);
    lemma_regroup_pb(q.y, v.z, q.w);
    lemma_regroup_pb(q.z, v.y, q.w);
    lemma_dist3_ppm(q.w * v.y, q.z * v.x, q.x * v.z, -q.z, t.y);
    lemma_regroup_na(q.w, v.y, q.z);
    lemma_regroup_na(q.z, v.x, q.z);
    lemma_regroup_na(q.x, v.z, q.z);
    lemma_dist3_ppm(q.w * v.z, q.x * v.y, q.y * v.x, -q.y, t.z);
    lemma_regroup_na(q.w, v.z, q.y);
    lemma_regroup_na(q.x, v.y, q.y);
    lemma_regroup_na(q.y, v.x, q.y);
    lemma_dist3_mmm(q.x * v.x, q.y * v.y, q.z * v.z, -q.y, t.w);
    lemma_regroup_na(q.x, v.x, q.y);
    lemma_regroup_na(q.y, v.y, q.y);
    lemma_regroup_nb(q.z, v.z, q.y);
    lemma_dist3_ppm(q.w * v.x, q.y * v.z, q.z * v.y, -q.z, t.x);
    lemma_regroup_na(q.w, v.x, q.z);
    lemma_regroup_na(q.y, v.z, q.z);
    lemma_regroup_na(q.z, v.y, q.z);
    lemma_dist3_ppm(q.w * v.y, q.z * v.x, q.x * v.z, q.w, t.y);
    lemma_regroup_pa(q.w, v.y, q.w);
    lemma_regroup_pb(q.z, v.x, q.w);
    lemma_regroup_pb(q.x, v.z, q.w);
    lemma_dist3_ppm(q.w * v.z, q.x * v.y, q.y * v.x, -q.x, t.z);
    lemma_regroup_na(q.w, v.z, q.x);
    lemma_regroup_na(q.x, v.y, q.x);
    lemma_regroup_nb(q.y, v.x, q.x);
    lemma_dist3_mmm(q.x * v.x, q.y * v.y, q.z * v.z, -q.z, t.w);
    lemma_regroup_na(q.x, v.x, q.z);
    lemma_regroup_na(q.y, v.y, q.z);
    lemma_regroup_na(q.z, v.z, q.z);
    lemma_dist3_ppm(q.w * v.x, q.y * v.z, q.z * v.y, -q.y, t.x);
    lemma_regroup_na(q.w, v.x, q.y);
    lemma_regroup_na(q.y, v.z, q.y);
    lemma_regroup_nb(q.z, v.y, q.y);
    lemma_dist3_ppm(q.w * v.y, q.z * v.x, q.x * v.z, -q.x, t.y);
    lemma_regroup_na(q.w, v.y, q.x);
    lemma_regroup_nb(q.z, v.x, q.x);
    lemma_regroup_na(q.x, v.z, q.x);
    lemma_dist3_ppm(q.w * v.z, q.x * v.y, q.y * v.x, q.w, t.z);
    lemma_regroup_pa(q.w, v.z, q.w);
    lemma_regroup_pb(q.x, v.y, q.w);
    lemma_regroup_pb(q.y, v.x, q.w);
    lemma_dist3_mmm(q.x * v.x, q.y * v.y, q.z * v.z, q.w, t.w);
    lemma_regroup_pb(q.x, v.x, q.w);
    lemma_regroup_pb(q.y, v.y, q.w);
    lemma_regroup_pb(q.z, v.z, q.w);
    lemma_dist3_ppm(q.w * v.x, q.y * v.z, q.z * v.y, -q.x, t.x);
    lemma_regroup_na(q.w, v.x, q.x);
    lemma_regroup_nb(q.y, v.z, q.x);
    lemma_regroup_nb(q.z, v.y, q.x);
    lemma_dist3_ppm(q.w * v.y, q.z * v.x, q.x * v.z, -q.y, t.y);
    lemma_regroup_na(q.w, v.y, q.y);
    lemma_regroup_nb(q.z, v.x, q.y);
    lemma_regroup_na(q.x, v.z, q.y);
    lemma_dist3_ppm(q.w * v.z, q.x * v.y, q.y * v.x, -q.z, t.z);
    lemma_regroup_na(q.w, v.z, q.z);
    lemma_regroup_na(q.x, v.y, q.z);
    lemma_regroup_na(q.y, v.x, q.z);
    lemma_double_b(q.y, q.w, v.z);
    lemma_double_b(q.z, q.w, v.y);
    lemma_double_b(q.y, q.x, v.y);
    lemma_double_b(q.z, q.x, v.z);
    lemma_double_a(q.x, q.y, v.x);
    lemma_double_b(q.z, q.y, v.z);
    lemma_double_a(q.w, q.z, v.x);
    lemma_double_b(q.x, q.w, v.z);
    lemma_double_a(q.x, q.z, v.x);
    lemma_double_a(q.y, q.z, v.y);
    lemma_double_a(q.w, q.y, v.x);
    lemma_double_a(q.w, q.x, v.y);
}

/// Rotation scales the squared length by the square of the quaternion's
/// squared norm; a unit quaternion preserves length exactly.
pub proof fn lemma_rotation_preserves_norm2(q: QuatView, v: Vec3View)
    ensures
        q.rotate(v).norm2() == q.norm2() * q.norm2() * v.norm2(),
        q.norm2() == 1 ==> q.rotate(v).norm2() == v.norm2(),
{
    let vq = QuatView::from_vector(v);
    let r = q.mul(vq).mul(q.conjugate());
    lemma_rotate_is_conjugation(q, v);
    lemma_norm2_multiplicative(q, vq);
    lemma_norm2_multiplicative(q.mul(vq), q.conjugate());
    lemma_conjugate_norm2(q);
    assert(vq.norm2() == v.norm2());
    assert(r.norm2() == q.rotate(v).norm2()) by {
        assert(r.w * r.w == 0) by (nonlinear_arith)
            requires
                r.w == 0,
        ;
    }
    assert((q.norm2() * v.norm2()) * q.norm2() == q.norm2() * q.norm2() * v.norm2())
        by (nonlinear_arith);
}

/// A quaternion and its negation rotate every vector identically: the unit
/// quaternions doubly cover the rotations.
pub proof fn lemma_rotate_double_cover(q: QuatView, v: Vec3View)
    ensures
        q.neg().rotate(v) == q.rotate(v),
{
    lemma_neg_square_term(q.w, v.x);
    lemma_neg_square_term(q.x, v.x);
    lemma_neg_square_term(q.z, v.x);
    lemma_neg_square_term(q.y, v.x);
    lemma_neg_square_term(q.y, v.y);
    lemma_neg_square_term(q.z, v.y);
    lemma_neg_square_term(q.w, v.y);
    lemma_neg_square_term(q.x, v.y);
    lemma_neg_square_term(q.z, v.z);
    lemma_neg_square_term(q.y, v.z);
    lemma_neg_square_term(q.x, v.z);
    lemma_neg_square_term(q.w, v.z);
    lemma_neg_double_term(q.y, q.w, v.z);
    lemma_neg_double_term(q.z, q.w, v.y);
    lemma_neg_double_term(q.y, q.x, v.y);
    lemma_neg_double_term(q.z, q.x, v.z);
    lemma_neg_double_term(q.x, q.y, v.x);
    lemma_neg_double_term(q.z, q.y, v.z);
    lemma_neg_double_term(q.w, q.z, v.x);
    lemma_neg_double_term(q.x, q.w, v.z);
    lemma_neg_double_term(q.x, q.z, v.x);
    lemma_neg_double_term(q.y, q.z, v.y);
    lemma_neg_double_term(q.w, q.y, v.x);
    lemma_neg_double_term(q.w, q.x, v.y);
}

/// Negating both factors of a square leaves its product with `v` unchanged.
proof fn lemma_neg_square_term(p: int, v: int)
    by (nonlinear_arith)
    ensures
        ((-p) * (-p)) * v == (p * p) * v,
{
}

/// Negating both factors of a doubled pair leaves its product with `v`
/// unchanged.
proof fn lemma_neg_double_term(p: int, r: int, v: int)
    by (nonlinear_arith)
    ensures
        ((2 * (-p)) * (-r)) * v == ((2 * p) * r) * v,
{
}

/// The blend's endpoints are exact: ratio zero gives `self` back and ratio
/// one gives `other` back, with no renormalization needed.
pub proof fn lemma_lerp_endpoints(a: QuatView, b: QuatView, den: int)
    requires
        den >= 1,
    ensures
        a.lerp(b, 0, den) == a,
        a.lerp(b, den, den) == b,
{
    lemma_div_trunc_exact(a.x, den);
    lemma_div_trunc_exact(a.y, den);
    lemma_div_trunc_exact(a.z, den);
    lemma_div_trunc_exact(a.w, den);
    lemma_div_trunc_exact(b.x, den);
    lemma_div_trunc_exact(b.y, den);
    lemma_div_trunc_exact(b.z, den);
    lemma_div_trunc_exact(b.w, den);
}

/// Dividing `a * d` back by `d` recovers `a` under truncating division.
proof fn lemma_div_trunc_exact(a: int, d: int)
    by (nonlinear_arith)
    requires
        d >= 1,
    ensures
        div_trunc(a * d, d) == a,
{
}

/// Square of a sum of three positive and one negative term, expanded.
proof fn lemma_sq4_pppm(s1: int, s2: int, s3: int, s4: int, t: int)
    by (nonlinear_arith)
    requires
        t == s1 + s2 + s3 - s4,
    ensures
        t * t == s1 * s1 + s2 * s2 + s3 * s3 + s4 * s4 + 2 * (s1 * s2) + 2 * (s1 * s3)
            + 2 * (s2 * s3) - 2 * (s1 * s4) - 2 * (s2 * s4) - 2 * (s3 * s4),
{
}

/// Square of a sum of one positive and three negative terms, expanded.
proof fn lemma_sq4_pmmm(s1: int, s2: int, s3: int, s4: int, t: int)
    by (nonlinear_arith)
    requires
        t == s1 - s2 - s3 - s4,
    ensures
        t * t == s1 * s1 + s2 * s2 + s3 * s3 + s4 * s4 - 2 * (s1 * s2) - 2 * (s1 * s3)
            - 2 * (s1 * s4) + 2 * (s2 * s3) + 2 * (s2 * s4) + 2 * (s3 * s4),
{
}

/// Rearrange a product of two products into paired factors.
proof fn lemma_mul4_aa(p: int, q: int, r: int, s: int)
    by (nonlinear_arith)
    ensures
        (p * q) * (r * s) == (p * r) * (q * s),
{
}

/// As [`lemma_mul4_aa`], with the second pair swapped.
proof fn lemma_mul4_ab(p: int, q: int, r: int, s: int)
    by (nonlinear_arith)
    ensures
        (p * q) * (r * s) == (p * r) * (s * q),
{
}

/// As [`lemma_mul4_aa`], with the first pair swapped.
proof fn lemma_mul4_ba(p: int, q: int, r: int, s: int)
    by (nonlinear_arith)
    ensures
        (p * q) * (r * s) == (r * p) * (q * s),
{
}

/// A product of two four-term sums, expanded.
proof fn lemma_mul_sum4(
    a1: int, a2: int, a3: int, a4: int,
    b1: int, b2: int, b3: int, b4: int,
)
    ensures
        (a1 + a2 + a3 + a4) * (b1 + b2 + b3 + b4) == a1 * b1 + a1 * b2 + a1 * b3 + a1 * b4
            + a2 * b1 + a2 * b2 + a2 * b3 + a2 * b4 + a3 * b1 + a3 * b2 + a3 * b3 + a3
            * b4 + a4 * b1 + a4 * b2 + a4 * b3 + a4 * b4,
{
    let sb = b1 + b2 + b3 + b4;
    assert((a1 + a2 + a3 + a4) * sb == a1 * sb + a2 * sb + a3 * sb + a4 * sb)
        by (nonlinear_arith);
    assert(a1 * sb == a1 * b1 + a1 * b2 + a1 * b3 + a1 * b4) by (nonlinear_arith)
        requires
            sb == b1 + b2 + b3 + b4,
    ;
    assert(a2 * sb == a2 * b1 + a2 * b2 + a2 * b3 + a2 * b4) by (nonlinear_arith)
        requires
            sb == b1 + b2 + b3 + b4,
    ;
    assert(a3 * sb == a3 * b1 + a3 * b2 + a3 * b3 + a3 * b4) by (nonlinear_arith)
        requires
            sb == b1 + b2 + b3 + b4,
    ;
    assert(a4 * sb == a4 * b1 + a4 * b2 + a4 * b3 + a4 * b4) by (nonlinear_arith)
        requires
            sb == b1 + b2 + b3 + b4,
    ;
}

/// Distribute a two-plus-one-minus sum over a factor.
proof fn lemma_dist3_ppm(u1: int, u2: int, u3: int, c: int, t: int)
    by (nonlinear_arith)
    requires
        t == u1 + u2 - u3,
    ensures
        t * c == u1 * c + u2 * c - u3 * c,
{
}

/// Distribute a three-minus sum over a factor.
proof fn lemma_dist3_mmm(u1: int, u2: int, u3: int, c: int, t: int)
    by (nonlinear_arith)
    requires
        t == -u1 - u2 - u3,
    ensures
        t * c == -(u1 * c) - (u2 * c) - (u3 * c),
{
}

/// Regroup `(p * v) * r` around the pair `p * r`.
proof fn lemma_regroup_pa(p: int, v: int, r: int)
    by (nonlinear_arith)
    ensures
        (p * v) * r == (p * r) * v,
{
}

/// As [`lemma_regroup_pa`], with the pair swapped.
proof fn lemma_regroup_pb(p: int, v: int, r: int)
    by (nonlinear_arith)
    ensures
        (p * v) * r == (r * p) * v,
{
}

/// Regroup `(p * v) * (-r)` around the pair `p * r`.
proof fn lemma_regroup_na(p: int, v: int, r: int)
    by (nonlinear_arith)
    ensures
        (p * v) * (-r) == -((p * r) * v),
{
}

/// As [`lemma_regroup_na`], with the pair swapped.
proof fn lemma_regroup_nb(p: int, v: int, r: int)
    by (nonlinear_arith)
    ensures
        (p * v) * (-r) == -((r * p) * v),
{
}

/// Pull the doubling out of `((2 * p) * r) * v`.
proof fn lemma_double_a(p: int, r: int, v: int)
    by (nonlinear_arith)
    ensures
        ((2 * p) * r) * v == 2 * ((p * r) * v),
{
}

/// As [`lemma_double_a`], with the pair swapped.
proof fn lemma_double_b(p: int, r: int, v: int)
    by (nonlinear_arith)
    ensures
        ((2 * p) * r) * v == 2 * ((r * p) * v),
{
}

impl ApproxEq for Quaternion {
    open spec fn approx_eq_req(self, other: Quaternion) -> bool {
        &&& self@.bounded(COORD_LIMIT as int)
        &&& other@.bounded(COORD_LIMIT as int)
    }

    /// Rotation equality: two unit quaternions at resolution [`UNIT_SCALE`]
    /// are the same rotation exactly when their dot product exceeds the
    /// squared unit less [`DOT_EPSILON`]. A quaternion and its negation are
    /// the same rotation but compare unequal here, as the convention has it;
    /// see [`lemma_rotate_double_cover`].
    open spec fn approx_eq_spec(self, other: Quaternion) -> bool {
        self@.dot(other@) > UNIT_SCALE * UNIT_SCALE - DOT_EPSILON
    }

    fn approx_eq(self, other: Quaternion) -> (r: bool) {
        Quaternion::dot(self, other) > UNIT_SCALE * UNIT_SCALE - DOT_EPSILON
    }
}

} // verus!
