//! Three-component vectors with exact integer coordinates.
//!
//! The mathematical value of a [`Vector3`] is a [`Vec3View`], a triple of
//! unbounded integers; every operation's contract states its result over that
//! model. Magnitudes are floor square roots and divisions truncate toward
//! zero, exactly as the executable code computes them.

use vstd::prelude::*;

use crate::approx_eq::ApproxEq;
use crate::consts::COORD_LIMIT;
use crate::consts::PROJECT_LIMIT;
use crate::consts::UNIT_SCALE;
use crate::math::div_trunc;
use crate::math::div_trunc_i64;
use crate::math::isqrt;
use crate::math::lemma_div_trunc_le_abs;
use crate::math::lemma_mul_le;
use crate::math::lemma_square_nonneg;
use crate::math::sqrt_floor;

verus! {

/// Mathematical value of a [`Vector3`]: a triple of unbounded integers.
pub struct Vec3View {
    pub x: int,
    pub y: int,
    pub z: int,
}

impl Vec3View {
    pub open spec fn zero() -> Vec3View {
        Vec3View { x: 0, y: 0, z: 0 }
    }

    /// All coordinates within `[-b, b]`.
    pub open spec fn bounded(self, b: int) -> bool {
        &&& -b <= self.x <= b
        &&& -b <= self.y <= b
        &&& -b <= self.z <= b
    }

    pub open spec fn add(self, other: Vec3View) -> Vec3View {
        Vec3View { x: self.x + other.x, y: self.y + other.y, z: self.z + other.z }
    }

    pub open spec fn add_all(self, k: int) -> Vec3View {
        Vec3View { x: self.x + k, y: self.y + k, z: self.z + k }
    }

    pub open spec fn sub(self, other: Vec3View) -> Vec3View {
        Vec3View { x: self.x - other.x, y: self.y - other.y, z: self.z - other.z }
    }

    pub open spec fn sub_all(self, k: int) -> Vec3View {
        Vec3View { x: self.x - k, y: self.y - k, z: self.z - k }
    }

    pub open spec fn neg(self) -> Vec3View {
        Vec3View { x: -self.x, y: -self.y, z: -self.z }
    }

    /// Every coordinate multiplied by `k`.
    pub open spec fn scaled(self, k: int) -> Vec3View {
        Vec3View { x: self.x * k, y: self.y * k, z: self.z * k }
    }

    /// Component-wise product.
    pub open spec fn scale(self, other: Vec3View) -> Vec3View {
        Vec3View { x: self.x * other.x, y: self.y * other.y, z: self.z * other.z }
    }

    /// Every coordinate divided by `k`, truncating toward zero.
    pub open spec fn div_all(self, k: int) -> Vec3View {
        Vec3View {
            x: div_trunc(self.x, k),
            y: div_trunc(self.y, k),
            z: div_trunc(self.z, k),
        }
    }

    pub open spec fn dot(self, other: Vec3View) -> int {
        self.x * other.x + self.y * other.y + self.z * other.z
    }

    pub open spec fn cross(self, other: Vec3View) -> Vec3View {
        Vec3View {
            x: self.y * other.z - self.z * other.y,
            y: self.z * other.x - self.x * other.z,
            z: self.x * other.y - self.y * other.x,
        }
    }

    /// Squared Euclidean length.
    pub open spec fn norm2(self) -> int {
        self.dot(self)
    }

    /// Floor of the Euclidean length.
    pub open spec fn norm(self) -> int {
        sqrt_floor(self.norm2() as nat) as int
    }

    /// The direction of the vector at resolution [`UNIT_SCALE`]: the zero
    /// vector when the length floor is zero, else each coordinate scaled by
    /// [`UNIT_SCALE`] and divided by the length floor, so the result's
    /// length is close to [`UNIT_SCALE`].
    pub open spec fn normalized(self) -> Vec3View {
        if self.norm() == 0 {
            Vec3View::zero()
        } else {
            self.scaled(UNIT_SCALE as int).div_all(self.norm())
        }
    }

    /// Unchanged when the squared length is within `max * max`, else scaled
    /// by `max` and divided by the length floor, which brings the length
    /// close to `max`.
    pub open spec fn clamped_magnitude(self, max: int) -> Vec3View {
        if self.norm2() > max * max {
            self.scaled(max).div_all(self.norm())
        } else {
            self
        }
    }

    /// Projection onto `normal`, or zero when `normal` is zero.
    pub open spec fn project(self, normal: Vec3View) -> Vec3View {
        let d = normal.dot(normal);
        if d == 0 {
            Vec3View::zero()
        } else {
            normal.scaled(self.dot(normal)).div_all(d)
        }
    }

    /// The component of `self` lying in the plane through the origin whose
    /// normal is `normal`.
    pub open spec fn project_on_plane(self, normal: Vec3View) -> Vec3View {
        self.sub(self.project(normal))
    }

    /// Projection of `self` onto the direction of the segment from `start`
    /// to `end`, pulled back to `start` and clamped to the segment's length.
    pub open spec fn project_on_segment(self, start: Vec3View, end: Vec3View) -> Vec3View {
        let segment = end.sub(start);
        let p = self.project(segment.normalized());
        p.sub(start).clamped_magnitude(segment.norm())
    }

    /// Mirror image across the plane whose normal is `normal`.
    pub open spec fn reflect(self, normal: Vec3View) -> Vec3View {
        normal.scaled(-2 * normal.dot(self)).add(self)
    }

    /// Affine blend toward `end` by the ratio `num / den`, truncating.
    pub open spec fn lerp(self, end: Vec3View, num: int, den: int) -> Vec3View {
        Vec3View {
            x: self.x + div_trunc((end.x - self.x) * num, den),
            y: self.y + div_trunc((end.y - self.y) * num, den),
            z: self.z + div_trunc((end.z - self.z) * num, den),
        }
    }
}

/// A vector of three exact integer coordinates.
#[derive(Clone, Copy, Debug, PartialEq, Eq, Structural)]
pub struct Vector3 {
    pub x: i64,
    pub y: i64,
    pub z: i64,
}

impl View for Vector3 {
    type V = Vec3View;

    open spec fn view(&self) -> Vec3View {
        Vec3View { x: self.x as int, y: self.y as int, z: self.z as int }
    }
}

impl Vector3 {
    pub fn new(x: i64, y: i64, z: i64) -> (v: Vector3)
        ensures
            v@ == (Vec3View { x: x as int, y: y as int, z: z as int }),
    {
        Vector3 { x, y, z }
    }

    pub fn zero() -> (v: Vector3)
        ensures
            v@ == Vec3View::zero(),
    {
        Vector3 { x: 0, y: 0, z: 0 }
    }

    pub fn one() -> (v: Vector3)
        ensures
            v@ == (Vec3View { x: 1, y: 1, z: 1 }),
    {
        Vector3 { x: 1, y: 1, z: 1 }
    }

    /// The forward axis: positive `z`.
    pub fn forward() -> (v: Vector3)
        ensures
            v@ == (Vec3View { x: 0, y: 0, z: 1 }),
    {
        Vector3 { x: 0, y: 0, z: 1 }
    }

    /// The right axis: positive `x`.
    pub fn right() -> (v: Vector3)
        ensures
            v@ == (Vec3View { x: 1, y: 0, z: 0 }),
    {
        Vector3 { x: 1, y: 0, z: 0 }
    }

    /// The up axis: positive `y`.
    pub fn up() -> (v: Vector3)
        ensures
            v@ == (Vec3View { x: 0, y: 1, z: 0 }),
    {
        Vector3 { x: 0, y: 1, z: 0 }
    }

    pub fn add(self, other: Vector3) -> (r: Vector3)
        requires
            i64::MIN <= self@.x + other@.x <= i64::MAX,
            i64::MIN <= self@.y + other@.y <= i64::MAX,
            i64::MIN <= self@.z + other@.z <= i64::MAX,
        ensures
            r@ == self@.add(other@),
    {
        Vector3 { x: self.x + other.x, y: self.y + other.y, z: self.z + other.z }
    }

    pub fn add_scalar(self, k: i64) -> (r: Vector3)
        requires
            i64::MIN <= self@.x + k <= i64::MAX,
            i64::MIN <= self@.y + k <= i64::MAX,
            i64::MIN <= self@.z + k <= i64::MAX,
        ensures
            r@ == self@.add_all(k as int),
    {
        Vector3 { x: self.x + k, y: self.y + k, z: self.z + k }
    }

    pub fn sub(self, other: Vector3) -> (r: Vector3)
        requires
            i64::MIN <= self@.x - other@.x <= i64::MAX,
            i64::MIN <= self@.y - other@.y <= i64::MAX,
            i64::MIN <= self@.z - other@.z <= i64::MAX,
        ensures
            r@ == self@.sub(other@),
    {
        Vector3 { x: self.x - other.x, y: self.y - other.y, z: self.z - other.z }
    }

    pub fn sub_scalar(self, k: i64) -> (r: Vector3)
        requires
            i64::MIN <= self@.x - k <= i64::MAX,
            i64::MIN <= self@.y - k <= i64::MAX,
            i64::MIN <= self@.z - k <= i64::MAX,
        ensures
            r@ == self@.sub_all(k as int),
    {
        Vector3 { x: self.x - k, y: self.y - k, z: self.z - k }
    }

    pub fn neg(self) -> (r: Vector3)
        requires
            self@.x > i64::MIN,
            self@.y > i64::MIN,
            self@.z > i64::MIN,
        ensures
            r@ == self@.neg(),
    {
        Vector3 { x: -self.x, y: -self.y, z: -self.z }
    }

    pub fn mul_scalar(self, k: i64) -> (r: Vector3)
        requires
            self@.bounded(COORD_LIMIT as int),
            -COORD_LIMIT <= k <= COORD_LIMIT,
        ensures
            r@ == self@.scaled(k as int),
    {
        proof {
            lemma_mul_le(self@.x, k as int, COORD_LIMIT as int, COORD_LIMIT as int);
            lemma_mul_le(self@.y, k as int, COORD_LIMIT as int, COORD_LIMIT as int);
            lemma_mul_le(self@.z, k as int, COORD_LIMIT as int, COORD_LIMIT as int);
        }
        Vector3 { x: self.x * k, y: self.y * k, z: self.z * k }
    }

    pub fn div_scalar(self, k: i64) -> (r: Vector3)
        requires
            k > 0,
            self@.x > i64::MIN,
            self@.y > i64::MIN,
            self@.z > i64::MIN,
        ensures
            r@ == self@.div_all(k as int),
    {
        Vector3 {
            x: div_trunc_i64(self.x, k),
            y: div_trunc_i64(self.y, k),
            z: div_trunc_i64(self.z, k),
        }
    }

    pub fn dot(a: Vector3, b: Vector3) -> (r: i64)
        requires
            a@.bounded(COORD_LIMIT as int),
            b@.bounded(COORD_LIMIT as int),
        ensures
            r == a@.dot(b@),
    {
        proof {
            lemma_mul_le(a@.x, b@.x, COORD_LIMIT as int, COORD_LIMIT as int);
            lemma_mul_le(a@.y, b@.y, COORD_LIMIT as int, COORD_LIMIT as int);
            lemma_mul_le(a@.z, b@.z, COORD_LIMIT as int, COORD_LIMIT as int);
        }
        a.x * b.x + a.y * b.y + a.z * b.z
    }

    pub fn cross(a: Vector3, b: Vector3) -> (r: Vector3)
        requires
            a@.bounded(COORD_LIMIT as int),
            b@.bounded(COORD_LIMIT as int),
        ensures
            r@ == a@.cross(b@),
    {
        proof {
            lemma_mul_le(a@.y, b@.z, COORD_LIMIT as int, COORD_LIMIT as int);
            lemma_mul_le(a@.z, b@.y, COORD_LIMIT as int, COORD_LIMIT as int);
            lemma_mul_le(a@.z, b@.x, COORD_LIMIT as int, COORD_LIMIT as int);
            lemma_mul_le(a@.x, b@.z, COORD_LIMIT as int, COORD_LIMIT as int);
            lemma_mul_le(a@.x, b@.y, COORD_LIMIT as int, COORD_LIMIT as int);
            lemma_mul_le(a@.y, b@.x, COORD_LIMIT as int, COORD_LIMIT as int);
        }
        Vector3 {
            x: a.y * b.z - a.z * b.y,
            y: a.z * b.x - a.x * b.z,
            z: a.x * b.y - a.y * b.x,
        }
    }

    pub fn scale(v: Vector3, other: Vector3) -> (r: Vector3)
        requires
            v@.bounded(COORD_LIMIT as int),
            other@.bounded(COORD_LIMIT as int),
        ensures
            r@ == v@.scale(other@),
    {
        proof {
            lemma_mul_le(v@.x, other@.x, COORD_LIMIT as int, COORD_LIMIT as int);
            lemma_mul_le(v@.y, other@.y, COORD_LIMIT as int, COORD_LIMIT as int);
            lemma_mul_le(v@.z, other@.z, COORD_LIMIT as int, COORD_LIMIT as int);
        }
        Vector3 { x: v.x * other.x, y: v.y * other.y, z: v.z * other.z }
    }

    pub fn sqr_magnitude(&self) -> (r: i64)
        requires
            self@.bounded(COORD_LIMIT as int),
        ensures
            r == self@.norm2(),
            r >= 0,
    {
        proof {
            lemma_mul_le(self@.x, self@.x, COORD_LIMIT as int, COORD_LIMIT as int);
            lemma_mul_le(self@.y, self@.y, COORD_LIMIT as int, COORD_LIMIT as int);
            lemma_mul_le(self@.z, self@.z, COORD_LIMIT as int, COORD_LIMIT as int);
            lemma_square_nonneg(self@.x);
            lemma_square_nonneg(self@.y);
            lemma_square_nonneg(self@.z);
        }
        self.x * self.x + self.y * self.y + self.z * self.z
    }

    /// Floor of the Euclidean length.
    pub fn magnitude(&self) -> (r: i64)
        requires
            self@.bounded(COORD_LIMIT as int),
        ensures
            r == self@.norm(),
            r >= 0,
            r * r <= self@.norm2() < (r + 1) * (r + 1),
    {
        let n = self.sqr_magnitude();
        let r = isqrt(n as u64);
        proof {
            assert(r * r <= n < (r + 1) * (r + 1));
            assert(r <= n) by (nonlinear_arith)
                requires
                    r * r <= n,
                    r >= 0,
            ;
        }
        r as i64
    }

    pub fn distance(a: Vector3, b: Vector3) -> (r: i64)
        requires
            a@.sub(b@).bounded(COORD_LIMIT as int),
        ensures
            r == a@.sub(b@).norm(),
            r >= 0,
    {
        let d = Vector3 { x: a.x - b.x, y: a.y - b.y, z: a.z - b.z };
        d.magnitude()
    }

    /// The direction of the vector at resolution [`UNIT_SCALE`]; the zero
    /// vector stays zero.
    pub fn normalized(&self) -> (r: Vector3)
        requires
            self@.bounded(COORD_LIMIT as int),
        ensures
            r@ == self@.normalized(),
    {
        let mag = self.magnitude();
        if mag > 0 {
            proof {
                lemma_mul_le(self@.x, UNIT_SCALE as int, COORD_LIMIT as int,
                    UNIT_SCALE as int);
                lemma_mul_le(self@.y, UNIT_SCALE as int, COORD_LIMIT as int,
                    UNIT_SCALE as int);
                lemma_mul_le(self@.z, UNIT_SCALE as int, COORD_LIMIT as int,
                    UNIT_SCALE as int);
            }
            Vector3 {
                x: div_trunc_i64(self.x * UNIT_SCALE, mag),
                y: div_trunc_i64(self.y * UNIT_SCALE, mag),
                z: div_trunc_i64(self.z * UNIT_SCALE, mag),
            }
        } else {
            Vector3 { x: 0, y: 0, z: 0 }
        }
    }

    /// In-place form of [`Vector3::normalized`].
    pub fn normalize(&mut self)
        requires
            old(self)@.bounded(COORD_LIMIT as int),
        ensures
            final(self)@ == old(self)@.normalized(),
    {
        *self = self.normalized();
    }

    /// Brings the vector down to length `max_length` when it is longer, by
    /// scaling with `max_length` and dividing by the length floor.
    pub fn clamp_magnitude(&self, max_length: i64) -> (r: Vector3)
        requires
            self@.bounded(COORD_LIMIT as int),
            -COORD_LIMIT <= max_length <= COORD_LIMIT,
        ensures
            r@ == self@.clamped_magnitude(max_length as int),
    {
        let sqr = self.sqr_magnitude();
        proof {
            lemma_mul_le(max_length as int, max_length as int, COORD_LIMIT as int,
                COORD_LIMIT as int);
        }
        if sqr > max_length * max_length {
            let mag = self.magnitude();
            proof {
                lemma_square_nonneg(max_length as int);
                crate::math::lemma_sqrt_floor_bounds(self@.norm2() as nat);
                let s = sqrt_floor(self@.norm2() as nat);
                assert(mag * mag == s * s);
                assert(mag > 0) by (nonlinear_arith)
                    requires
                        mag >= 0,
                        self@.norm2() < (mag + 1) * (mag + 1),
                        self@.norm2() >= 1,
                ;
                lemma_mul_le(self@.x, max_length as int, COORD_LIMIT as int,
                    COORD_LIMIT as int);
                lemma_mul_le(self@.y, max_length as int, COORD_LIMIT as int,
                    COORD_LIMIT as int);
                lemma_mul_le(self@.z, max_length as int, COORD_LIMIT as int,
                    COORD_LIMIT as int);
            }
            Vector3 {
                x: div_trunc_i64(self.x * max_length, mag),
                y: div_trunc_i64(self.y * max_length, mag),
                z: div_trunc_i64(self.z * max_length, mag),
            }
        } else {
            *self
        }
    }

    /// Projection of `v` onto `normal`; zero when `normal` is zero.
    pub fn project(v: Vector3, normal: Vector3) -> (r: Vector3)
        requires
            v@.bounded(PROJECT_LIMIT as int),
            normal@.bounded(PROJECT_LIMIT as int),
        ensures
            r@ == v@.project(normal@),
    {
        let d = Vector3::dot(normal, normal);
        proof {
            lemma_square_nonneg(normal@.x);
            lemma_square_nonneg(normal@.y);
            lemma_square_nonneg(normal@.z);
        }
        if d == 0 {
            Vector3 { x: 0, y: 0, z: 0 }
        } else {
            let s = Vector3::dot(v, normal);
            proof {
                lemma_mul_le(v@.x, normal@.x, PROJECT_LIMIT as int, PROJECT_LIMIT as int);
                lemma_mul_le(v@.y, normal@.y, PROJECT_LIMIT as int, PROJECT_LIMIT as int);
                lemma_mul_le(v@.z, normal@.z, PROJECT_LIMIT as int, PROJECT_LIMIT as int);
                lemma_mul_le(normal@.x, s as int, PROJECT_LIMIT as int,
                    0x300_0000_0000);
                lemma_mul_le(normal@.y, s as int, PROJECT_LIMIT as int,
                    0x300_0000_0000);
                lemma_mul_le(normal@.z, s as int, PROJECT_LIMIT as int,
                    0x300_0000_0000);
            }
            Vector3 {
                x: div_trunc_i64(normal.x * s, d),
                y: div_trunc_i64(normal.y * s, d),
                z: div_trunc_i64(normal.z * s, d),
            }
        }
    }

    /// The component of `v` lying in the plane whose normal is `normal`.
    pub fn project_on_plane(v: Vector3, normal: Vector3) -> (r: Vector3)
        requires
            v@.bounded(PROJECT_LIMIT as int),
            normal@.bounded(PROJECT_LIMIT as int),
        ensures
            r@ == v@.project_on_plane(normal@),
    {
        let p = Vector3::project(v, normal);
        proof {
            let d = normal@.dot(normal@);
            lemma_square_nonneg(normal@.x);
            lemma_square_nonneg(normal@.y);
            lemma_square_nonneg(normal@.z);
            if d != 0 {
                let s = v@.dot(normal@);
                lemma_mul_le(v@.x, normal@.x, PROJECT_LIMIT as int, PROJECT_LIMIT as int);
                lemma_mul_le(v@.y, normal@.y, PROJECT_LIMIT as int, PROJECT_LIMIT as int);
                lemma_mul_le(v@.z, normal@.z, PROJECT_LIMIT as int, PROJECT_LIMIT as int);
                lemma_mul_le(normal@.x, s, PROJECT_LIMIT as int, 0x300_0000_0000);
                lemma_mul_le(normal@.y, s, PROJECT_LIMIT as int, 0x300_0000_0000);
                lemma_mul_le(normal@.z, s, PROJECT_LIMIT as int, 0x300_0000_0000);
                lemma_div_trunc_le_abs(normal@.x * s, d);
                lemma_div_trunc_le_abs(normal@.y * s, d);
                lemma_div_trunc_le_abs(normal@.z * s, d);
            }
        }
        v.sub(p)
    }

    /// Projection of `point` onto the segment from `start` to `end`.
    pub fn project_on_segment(point: Vector3, start: Vector3, end: Vector3) -> (r: Vector3)
        requires
            point@.bounded(PROJECT_LIMIT as int),
            start@.bounded(PROJECT_LIMIT as int),
            end@.bounded(PROJECT_LIMIT as int),
        ensures
            r@ == point@.project_on_segment(start@, end@),
    {
        let segment = end.sub(start);
        let n = segment.normalized();
        proof {
            lemma_normalized_bounded(segment@);
        }
        let proj_point = Vector3::project(point, n);
        proof {
            lemma_project_bounded(point@, segment@.normalized(), PROJECT_LIMIT as int);
        }
        let m = segment.magnitude();
        proof {
            lemma_mul_le(segment@.x, segment@.x, 0x20_0000, 0x20_0000);
            lemma_mul_le(segment@.y, segment@.y, 0x20_0000, 0x20_0000);
            lemma_mul_le(segment@.z, segment@.z, 0x20_0000, 0x20_0000);
            lemma_square_nonneg(segment@.x);
            lemma_square_nonneg(segment@.y);
            lemma_square_nonneg(segment@.z);
            crate::math::lemma_sqrt_floor_bounds(segment@.norm2() as nat);
            let s = crate::math::sqrt_floor(segment@.norm2() as nat);
            assert(m * m == s * s);
            assert(m <= 0x40_0000) by (nonlinear_arith)
                requires
                    m >= 0,
                    m * m <= segment@.norm2(),
                    segment@.norm2() <= 0xC00_0000_0000,
            ;
        }
        proj_point.sub(start).clamp_magnitude(m)
    }

    /// Normalizes `a` in place and replaces `b` with the normalized cross
    /// product of the new `a` and the old `b`.
    pub fn ortho_normalize(a: &mut Vector3, b: &mut Vector3)
        requires
            old(a)@.bounded(COORD_LIMIT as int),
            old(b)@.bounded(0x2000),
        ensures
            final(a)@ == old(a)@.normalized(),
            final(b)@ == old(a)@.normalized().cross(old(b)@).normalized(),
    {
        a.normalize();
        proof {
            lemma_normalized_bounded(old(a)@);
        }
        let c = Vector3::cross(*a, *b);
        proof {
            let n = old(a)@.normalized();
            lemma_mul_le(n.y, old(b)@.z, UNIT_SCALE as int, 0x2000);
            lemma_mul_le(n.z, old(b)@.y, UNIT_SCALE as int, 0x2000);
            lemma_mul_le(n.z, old(b)@.x, UNIT_SCALE as int, 0x2000);
            lemma_mul_le(n.x, old(b)@.z, UNIT_SCALE as int, 0x2000);
            lemma_mul_le(n.x, old(b)@.y, UNIT_SCALE as int, 0x2000);
            lemma_mul_le(n.y, old(b)@.x, UNIT_SCALE as int, 0x2000);
        }
        *b = c.normalized();
    }

    /// Mirror image of `v` across the plane whose normal is `normal`.
    pub fn reflect(v: Vector3, normal: Vector3) -> (r: Vector3)
        requires
            v@.bounded(PROJECT_LIMIT as int),
            normal@.bounded(PROJECT_LIMIT as int),
        ensures
            r@ == v@.reflect(normal@),
    {
        let d = Vector3::dot(normal, v);
        proof {
            lemma_mul_le(normal@.x, v@.x, 0x10_0000, 0x10_0000);
            lemma_mul_le(normal@.y, v@.y, 0x10_0000, 0x10_0000);
            lemma_mul_le(normal@.z, v@.z, 0x10_0000, 0x10_0000);
        }
        let s = -(d + d);
        proof {
            lemma_mul_le(normal@.x, s as int, 0x10_0000, 0x600_0000_0000);
            lemma_mul_le(normal@.y, s as int, 0x10_0000, 0x600_0000_0000);
            lemma_mul_le(normal@.z, s as int, 0x10_0000, 0x600_0000_0000);
        }
        Vector3 {
            x: normal.x * s + v.x,
            y: normal.y * s + v.y,
            z: normal.z * s + v.z,
        }
    }

    /// Affine blend from `start` toward `end` by `t_num / t_den`, with the
    /// ratio clamped into `[0, 1]` first.
    pub fn lerp_to(start: Vector3, end: Vector3, t_num: i64, t_den: i64) -> (r: Vector3)
        requires
            t_den > 0,
            start@.bounded(COORD_LIMIT as int),
            end@.bounded(COORD_LIMIT as int),
            t_den <= COORD_LIMIT,
        ensures
            t_num < 0 ==> r@ == start@.lerp(end@, 0, t_den as int),
            0 <= t_num <= t_den ==> r@ == start@.lerp(end@, t_num as int, t_den as int),
            t_num > t_den ==> r@ == start@.lerp(end@, t_den as int, t_den as int),
    {
        let alpha = if t_num < 0 {
            0
        } else if t_num > t_den {
            t_den
        } else {
            t_num
        };
        Vector3::lerp_to_unclamped(start, end, alpha, t_den)
    }

    /// Affine blend from `start` toward `end` by the unclamped ratio
    /// `t_num / t_den`.
    pub fn lerp_to_unclamped(start: Vector3, end: Vector3, t_num: i64, t_den: i64) -> (r:
        Vector3)
        requires
            t_den > 0,
            start@.bounded(COORD_LIMIT as int),
            end@.bounded(COORD_LIMIT as int),
            -COORD_LIMIT <= t_num <= COORD_LIMIT,
        ensures
            r@ == start@.lerp(end@, t_num as int, t_den as int),
    {
        proof {
            lemma_mul_le(end@.x - start@.x, t_num as int, 0x8000_0000, COORD_LIMIT as int);
            lemma_mul_le(end@.y - start@.y, t_num as int, 0x8000_0000, COORD_LIMIT as int);
            lemma_mul_le(end@.z - start@.z, t_num as int, 0x8000_0000, COORD_LIMIT as int);
            lemma_div_trunc_le_abs((end@.x - start@.x) * t_num, t_den as int);
            lemma_div_trunc_le_abs((end@.y - start@.y) * t_num, t_den as int);
            lemma_div_trunc_le_abs((end@.z - start@.z) * t_num, t_den as int);
        }
        Vector3 {
            x: start.x + div_trunc_i64((end.x - start.x) * t_num, t_den),
            y: start.y + div_trunc_i64((end.y - start.y) * t_num, t_den),
            z: start.z + div_trunc_i64((end.z - start.z) * t_num, t_den),
        }
    }
}

/// The zero vector normalizes to itself: normalization is guarded on a zero
/// length.
pub proof fn lemma_normalized_zero()
    ensures
        Vec3View::zero().normalized() == Vec3View::zero(),
{
    assert(Vec3View::zero().norm2() == 0);
    assert(sqrt_floor(0) == 0);
}

/// A normalized vector's coordinates are within [`UNIT_SCALE`]: each
/// coordinate's square is within the squared length, so its size is within
/// the length floor, and the scaled quotient is within the scale.
pub proof fn lemma_normalized_bounded(v: Vec3View)
    ensures
        v.normalized().bounded(UNIT_SCALE as int),
{
    lemma_square_nonneg(v.x);
    lemma_square_nonneg(v.y);
    lemma_square_nonneg(v.z);
    let n2 = v.norm2();
    crate::math::lemma_sqrt_floor_bounds(n2 as nat);
    let m = v.norm();
    if m != 0 {
        assert(-m <= v.x <= m) by (nonlinear_arith)
            requires
                v.x * v.x <= n2,
                n2 < (m + 1) * (m + 1),
                m >= 0,
        ;
        assert(-m <= v.y <= m) by (nonlinear_arith)
            requires
                v.y * v.y <= n2,
                n2 < (m + 1) * (m + 1),
                m >= 0,
        ;
        assert(-m <= v.z <= m) by (nonlinear_arith)
            requires
                v.z * v.z <= n2,
                n2 < (m + 1) * (m + 1),
                m >= 0,
        ;
        crate::math::lemma_div_trunc_bound(v.x * UNIT_SCALE, m, UNIT_SCALE as int);
        crate::math::lemma_div_trunc_bound(v.y * UNIT_SCALE, m, UNIT_SCALE as int);
        crate::math::lemma_div_trunc_bound(v.z * UNIT_SCALE, m, UNIT_SCALE as int);
    }
}

/// A projection's coordinates stay within three times the bound of the
/// projected vector, whatever the normal: each dividend coordinate is within
/// three such bounds of the normal's squared length.
pub proof fn lemma_project_bounded(v: Vec3View, normal: Vec3View, b: int)
    requires
        b >= 0,
        v.bounded(b),
    ensures
        v.project(normal).bounded(3 * b),
{
    lemma_square_nonneg(normal.x);
    lemma_square_nonneg(normal.y);
    lemma_square_nonneg(normal.z);
    let d = normal.dot(normal);
    if d != 0 {
        let s = v.dot(normal);
        assert(-d <= normal.x * normal.y <= d) by (nonlinear_arith)
            requires
                normal.x * normal.x <= d,
                normal.y * normal.y <= d,
        ;
        assert(-d <= normal.x * normal.z <= d) by (nonlinear_arith)
            requires
                normal.x * normal.x <= d,
                normal.z * normal.z <= d,
        ;
        assert(-d <= normal.y * normal.z <= d) by (nonlinear_arith)
            requires
                normal.y * normal.y <= d,
                normal.z * normal.z <= d,
        ;
        assert(-d <= normal.y * normal.x <= d) by (nonlinear_arith)
            requires
                normal.x * normal.x <= d,
                normal.y * normal.y <= d,
        ;
        assert(-d <= normal.z * normal.x <= d) by (nonlinear_arith)
            requires
                normal.x * normal.x <= d,
                normal.z * normal.z <= d,
        ;
        assert(-d <= normal.z * normal.y <= d) by (nonlinear_arith)
            requires
                normal.y * normal.y <= d,
                normal.z * normal.z <= d,
        ;
        crate::math::lemma_dist3_left(v.x * normal.x, v.y * normal.y, v.z * normal.z,
            normal.x, s);
        crate::math::lemma_dist3_left(v.x * normal.x, v.y * normal.y, v.z * normal.z,
            normal.y, s);
        crate::math::lemma_dist3_left(v.x * normal.x, v.y * normal.y, v.z * normal.z,
            normal.z, s);
        crate::math::lemma_swap3(normal.x, v.x, normal.x);
        crate::math::lemma_swap3(normal.x, v.y, normal.y);
        crate::math::lemma_swap3(normal.x, v.z, normal.z);
        crate::math::lemma_swap3(normal.y, v.x, normal.x);
        crate::math::lemma_swap3(normal.y, v.y, normal.y);
        crate::math::lemma_swap3(normal.y, v.z, normal.z);
        crate::math::lemma_swap3(normal.z, v.x, normal.x);
        crate::math::lemma_swap3(normal.z, v.y, normal.y);
        crate::math::lemma_swap3(normal.z, v.z, normal.z);
        lemma_mul_le(v.x, normal.x * normal.x, b, d);
        lemma_mul_le(v.y, normal.x * normal.y, b, d);
        lemma_mul_le(v.z, normal.x * normal.z, b, d);
        lemma_mul_le(v.x, normal.y * normal.x, b, d);
        lemma_mul_le(v.y, normal.y * normal.y, b, d);
        lemma_mul_le(v.z, normal.y * normal.z, b, d);
        lemma_mul_le(v.x, normal.z * normal.x, b, d);
        lemma_mul_le(v.y, normal.z * normal.y, b, d);
        lemma_mul_le(v.z, normal.z * normal.z, b, d);
        crate::math::lemma_triple_mul(b, d);
        crate::math::lemma_div_trunc_bound(normal.x * s, d, 3 * b);
        crate::math::lemma_div_trunc_bound(normal.y * s, d, 3 * b);
        crate::math::lemma_div_trunc_bound(normal.z * s, d, 3 * b);
    }
}

impl ApproxEq for Vector3 {
    open spec fn approx_eq_req(self, other: Vector3) -> bool {
        true
    }

    /// At resolution [`UNIT_SCALE`] the per-coordinate float tolerance
    /// scales to below one, so approximate equality is equality of the
    /// coordinates.
    open spec fn approx_eq_spec(self, other: Vector3) -> bool {
        self@ == other@
    }

    fn approx_eq(self, other: Vector3) -> (r: bool) {
        self.x == other.x && self.y == other.y && self.z == other.z
    }
}

} // verus!
