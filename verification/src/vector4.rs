//! Four-component vectors with exact integer coordinates, modelled by
//! unbounded-integer quadruples. The operations mirror [`crate::Vector3`]
//! without the cross product.

use vstd::prelude::*;

use crate::approx_eq::ApproxEq;
use crate::consts::COORD_LIMIT;
use crate::consts::PROJECT_LIMIT;
use crate::consts::UNIT_SCALE;
use crate::math::div_trunc;
use crate::math::div_trunc_i64;
use crate::math::isqrt;
use crate::math::lemma_div_trunc_le_abs;
use crate::math::lemma_mul_le;
use crate::math::lemma_square_nonneg;
use crate::math::sqrt_floor;

verus! {

/// Mathematical value of a [`Vector4`]: a quadruple of unbounded integers.
pub struct Vec4View {
    pub x: int,
    pub y: int,
    pub z: int,
    pub w: int,
}

impl Vec4View {
    pub open spec fn zero() -> Vec4View {
        Vec4View { x: 0, y: 0, z: 0, w: 0 }
    }

    /// All coordinates within `[-b, b]`.
    pub open spec fn bounded(self, b: int) -> bool {
        &&& -b <= self.x <= b
        &&& -b <= self.y <= b
        &&& -b <= self.z <= b
        &&& -b <= self.w <= b
    }

    pub open spec fn add(self, other: Vec4View) -> Vec4View {
        Vec4View {
            x: self.x + other.x,
            y: self.y + other.y,
            z: self.z + other.z,
            w: self.w + other.w,
        }
    }

    pub open spec fn add_all(self, k: int) -> Vec4View {
        Vec4View { x: self.x + k, y: self.y + k, z: self.z + k, w: self.w + k }
    }

    pub open spec fn sub(self, other: Vec4View) -> Vec4View {
        Vec4View {
            x: self.x - other.x,
            y: self.y - other.y,
            z: self.z - other.z,
            w: self.w - other.w,
        }
    }

    pub open spec fn sub_all(self, k: int) -> Vec4View {
        Vec4View { x: self.x - k, y: self.y - k, z: self.z - k, w: self.w - k }
    }

    pub open spec fn neg(self) -> Vec4View {
        Vec4View { x: -self.x, y: -self.y, z: -self.z, w: -self.w }
    }

    /// Every coordinate multiplied by `k`.
    pub open spec fn scaled(self, k: int) -> Vec4View {
        Vec4View { x: self.x * k, y: self.y * k, z: self.z * k, w: self.w * k }
    }

    /// Component-wise product.
    pub open spec fn scale(self, other: Vec4View) -> Vec4View {
        Vec4View {
            x: self.x * other.x,
            y: self.y * other.y,
            z: self.z * other.z,
            w: self.w * other.w,
        }
    }

    /// Every coordinate divided by `k`, truncating toward zero.
    pub open spec fn div_all(self, k: int) -> Vec4View {
        Vec4View {
            x: div_trunc(self.x, k),
            y: div_trunc(self.y, k),
            z: div_trunc(self.z, k),
            w: div_trunc(self.w, k),
        }
    }

    pub open spec fn dot(self, other: Vec4View) -> int {
        self.x * other.x + self.y * other.y + self.z * other.z + self.w * other.w
    }

    /// Squared Euclidean length.
    pub open spec fn norm2(self) -> int {
        self.dot(self)
    }

    /// Floor of the Euclidean length.
    pub open spec fn norm(self) -> int {
        sqrt_floor(self.norm2() as nat) as int
    }

    /// The direction of the vector at resolution [`UNIT_SCALE`]: the zero
    /// vector when the length floor is zero, else each coordinate scaled by
    /// [`UNIT_SCALE`] and divided by the length floor, so the result's
    /// length is close to [`UNIT_SCALE`].
    pub open spec fn normalized(self) -> Vec4View {
        if self.norm() == 0 {
            Vec4View::zero()
        } else {
            self.scaled(UNIT_SCALE as int).div_all(self.norm())
        }
    }

    /// Unchanged when the squared length is within `max * max`, else scaled
    /// by `max` and divided by the length floor, which brings the length
    /// close to `max`.
    pub open spec fn clamped_magnitude(self, max: int) -> Vec4View {
        if self.norm2() > max * max {
            self.scaled(max).div_all(self.norm())
        } else {
            self
        }
    }

    /// Projection onto `normal`, or zero when `normal` is zero.
    pub open spec fn project(self, normal: Vec4View) -> Vec4View {
        let d = normal.dot(normal);
        if d == 0 {
            Vec4View::zero()
        } else {
            normal.scaled(self.dot(normal)).div_all(d)
        }
    }

    /// Affine blend toward `end` by the ratio `num / den`, truncating.
    pub open spec fn lerp(self, end: Vec4View, num: int, den: int) -> Vec4View {
        Vec4View {
            x: self.x + div_trunc((end.x - self.x) * num, den),
            y: self.y + div_trunc((end.y - self.y) * num, den),
            z: self.z + div_trunc((end.z - self.z) * num, den),
            w: self.w + div_trunc((end.w - self.w) * num, den),
        }
    }
}

/// A vector of four exact integer coordinates.
#[derive(Clone, Copy, Debug, PartialEq, Eq, Structural)]
pub struct Vector4 {
    pub x: i64,
    pub y: i64,
    pub z: i64,
    pub w: i64,
}

impl View for Vector4 {
    type V = Vec4View;

    open spec fn view(&self) -> Vec4View {
        Vec4View { x: self.x as int, y: self.y as int, z: self.z as int, w: self.w as int }
    }
}

impl Vector4 {
    pub fn new(x: i64, y: i64, z: i64, w: i64) -> (v: Vector4)
        ensures
            v@ == (Vec4View { x: x as int, y: y as int, z: z as int, w: w as int }),
    {
        Vector4 { x, y, z, w }
    }

    pub fn zero() -> (v: Vector4)
        ensures
            v@ == Vec4View::zero(),
    {
        Vector4 { x: 0, y: 0, z: 0, w: 0 }
    }

    pub fn one() -> (v: Vector4)
        ensures
            v@ == (Vec4View { x: 1, y: 1, z: 1, w: 1 }),
    {
        Vector4 { x: 1, y: 1, z: 1, w: 1 }
    }

    pub fn add(self, other: Vector4) -> (r: Vector4)
        requires
            i64::MIN <= self@.x + other@.x <= i64::MAX,
            i64::MIN <= self@.y + other@.y <= i64::MAX,
            i64::MIN <= self@.z + other@.z <= i64::MAX,
            i64::MIN <= self@.w + other@.w <= i64::MAX,
        ensures
            r@ == self@.add(other@),
    {
        Vector4 {
            x: self.x + other.x,
            y: self.y + other.y,
            z: self.z + other.z,
            w: self.w + other.w,
        }
    }

    pub fn add_scalar(self, k: i64) -> (r: Vector4)
        requires
            i64::MIN <= self@.x + k <= i64::MAX,
            i64::MIN <= self@.y + k <= i64::MAX,
            i64::MIN <= self@.z + k <= i64::MAX,
            i64::MIN <= self@.w + k <= i64::MAX,
        ensures
            r@ == self@.add_all(k as int),
    {
        Vector4 { x: self.x + k, y: self.y + k, z: self.z + k, w: self.w + k }
    }

    pub fn sub(self, other: Vector4) -> (r: Vector4)
        requires
            i64::MIN <= self@.x - other@.x <= i64::MAX,
            i64::MIN <= self@.y - other@.y <= i64::MAX,
            i64::MIN <= self@.z - other@.z <= i64::MAX,
            i64::MIN <= self@.w - other@.w <= i64::MAX,
        ensures
            r@ == self@.sub(other@),
    {
        Vector4 {
            x: self.x - other.x,
            y: self.y - other.y,
            z: self.z - other.z,
            w: self.w - other.w,
        }
    }

    pub fn sub_scalar(self, k: i64) -> (r: Vector4)
        requires
            i64::MIN <= self@.x - k <= i64::MAX,
            i64::MIN <= self@.y - k <= i64::MAX,
            i64::MIN <= self@.z - k <= i64::MAX,
            i64::MIN <= self@.w - k <= i64::MAX,
        ensures
            r@ == self@.sub_all(k as int),
    {
        Vector4 { x: self.x - k, y: self.y - k, z: self.z - k, w: self.w - k }
    }

    pub fn neg(self) -> (r: Vector4)
        requires
            self@.x > i64::MIN,
            self@.y > i64::MIN,
            self@.z > i64::MIN,
            self@.w > i64::MIN,
        ensures
            r@ == self@.neg(),
    {
        Vector4 { x: -self.x, y: -self.y, z: -self.z, w: -self.w }
    }

    pub fn mul_scalar(self, k: i64) -> (r: Vector4)
        requires
            self@.bounded(COORD_LIMIT as int),
            -COORD_LIMIT <= k <= COORD_LIMIT,
        ensures
            r@ == self@.scaled(k as int),
    {
        proof {
            lemma_mul_le(self@.x, k as int, COORD_LIMIT as int, COORD_LIMIT as int);
            lemma_mul_le(self@.y, k as int, COORD_LIMIT as int, COORD_LIMIT as int);
            lemma_mul_le(self@.z, k as int, COORD_LIMIT as int, COORD_LIMIT as int);
            lemma_mul_le(self@.w, k as int, COORD_LIMIT as int, COORD_LIMIT as int);
        }
        Vector4 { x: self.x * k, y: self.y * k, z: self.z * k, w: self.w * k }
    }

    pub fn div_scalar(self, k: i64) -> (r: Vector4)
        requires
            k > 0,
            self@.x > i64::MIN,
            self@.y > i64::MIN,
            self@.z > i64::MIN,
            self@.w > i64::MIN,
        ensures
            r@ == self@.div_all(k as int),
    {
        Vector4 {
            x: div_trunc_i64(self.x, k),
            y: div_trunc_i64(self.y, k),
            z: div_trunc_i64(self.z, k),
            w: div_trunc_i64(self.w, k),
        }
    }

    pub fn dot(a: Vector4, b: Vector4) -> (r: i64)
        requires
            a@.bounded(COORD_LIMIT as int),
            b@.bounded(COORD_LIMIT as int),
        ensures
            r == a@.dot(b@),
    {
        proof {
            lemma_mul_le(a@.x, b@.x, COORD_LIMIT as int, COORD_LIMIT as int);
            lemma_mul_le(a@.y, b@.y, COORD_LIMIT as int, COORD_LIMIT as int);
            lemma_mul_le(a@.z, b@.z, COORD_LIMIT as int, COORD_LIMIT as int);
            lemma_mul_le(a@.w, b@.w, COORD_LIMIT as int, COORD_LIMIT as int);
        }
        a.x * b.x + a.y * b.y + a.z * b.z + a.w * b.w
    }

    pub fn scale(v: Vector4, other: Vector4) -> (r: Vector4)
        requires
            v@.bounded(COORD_LIMIT as int),
            other@.bounded(COORD_LIMIT as int),
        ensures
            r@ == v@.scale(other@),
    {
        proof {
            lemma_mul_le(v@.x, other@.x, COORD_LIMIT as int, COORD_LIMIT as int);
            lemma_mul_le(v@.y, other@.y, COORD_LIMIT as int, COORD_LIMIT as int);
            lemma_mul_le(v@.z, other@.z, COORD_LIMIT as int, COORD_LIMIT as int);
            lemma_mul_le(v@.w, other@.w, COORD_LIMIT as int, COORD_LIMIT as int);
        }
        Vector4 {
            x: v.x * other.x,
            y: v.y * other.y,
            z: v.z * other.z,
            w: v.w * other.w,
        }
    }

    pub fn sqr_magnitude(&self) -> (r: i64)
        requires
            self@.bounded(COORD_LIMIT as int),
        ensures
            r == self@.norm2(),
            r >= 0,
    {
        proof {
            lemma_mul_le(self@.x, self@.x, COORD_LIMIT as int, COORD_LIMIT as int);
            lemma_mul_le(self@.y, self@.y, COORD_LIMIT as int, COORD_LIMIT as int);
            lemma_mul_le(self@.z, self@.z, COORD_LIMIT as int, COORD_LIMIT as int);
            lemma_mul_le(self@.w, self@.w, COORD_LIMIT as int, COORD_LIMIT as int);
            lemma_square_nonneg(self@.x);
            lemma_square_nonneg(self@.y);
            lemma_square_nonneg(self@.z);
            lemma_square_nonneg(self@.w);
        }
        self.x * self.x + self.y * self.y + self.z * self.z + self.w * self.w
    }

    /// Floor of the Euclidean length.
    pub fn magnitude(&self) -> (r: i64)
        requires
            self@.bounded(COORD_LIMIT as int),
        ensures
            r == self@.norm(),
            r >= 0,
            r * r <= self@.norm2() < (r + 1) * (r + 1),
    {
        let n = self.sqr_magnitude();
        let r = isqrt(n as u64);
        proof {
            assert(r * r <= n < (r + 1) * (r + 1));
            assert(r <= n) by (nonlinear_arith)
                requires
                    r * r <= n,
                    r >= 0,
            ;
        }
        r as i64
    }

    pub fn distance(a: Vector4, b: Vector4) -> (r: i64)
        requires
            a@.sub(b@).bounded(COORD_LIMIT as int),
        ensures
            r == a@.sub(b@).norm(),
            r >= 0,
    {
        let d = Vector4 { x: a.x - b.x, y: a.y - b.y, z: a.z - b.z, w: a.w - b.w };
        d.magnitude()
    }

    /// The direction of the vector at resolution [`UNIT_SCALE`]; the zero
    /// vector stays zero.
    pub fn normalized(&self) -> (r: Vector4)
        requires
            self@.bounded(COORD_LIMIT as int),
        ensures
            r@ == self@.normalized(),
    {
        let mag = self.magnitude();
        if mag > 0 {
            proof {
                lemma_mul_le(self@.x, UNIT_SCALE as int, COORD_LIMIT as int,
                    UNIT_SCALE as int);
                lemma_mul_le(self@.y, UNIT_SCALE as int, COORD_LIMIT as int,
                    UNIT_SCALE as int);
                lemma_mul_le(self@.z, UNIT_SCALE as int, COORD_LIMIT as int,
                    UNIT_SCALE as int);
                lemma_mul_le(self@.w, UNIT_SCALE as int, COORD_LIMIT as int,
                    UNIT_SCALE as int);
            }
            Vector4 {
                x: div_trunc_i64(self.x * UNIT_SCALE, mag),
                y: div_trunc_i64(self.y * UNIT_SCALE, mag),
                z: div_trunc_i64(self.z * UNIT_SCALE, mag),
                w: div_trunc_i64(self.w * UNIT_SCALE, mag),
            }
        } else {
            Vector4 { x: 0, y: 0, z: 0, w: 0 }
        }
    }

    /// In-place form of [`Vector4::normalized`].
    pub fn normalize(&mut self)
        requires
            old(self)@.bounded(COORD_LIMIT as int),
        ensures
            final(self)@ == old(self)@.normalized(),
    {
        *self = self.normalized();
    }

    /// Brings the vector down to length `max_length` when it is longer, by
    /// scaling with `max_length` and dividing by the length floor.
    pub fn clamp_magnitude(&self, max_length: i64) -> (r: Vector4)
        requires
            self@.bounded(COORD_LIMIT as int),
            -COORD_LIMIT <= max_length <= COORD_LIMIT,
        ensures
            r@ == self@.clamped_magnitude(max_length as int),
    {
        let sqr = self.sqr_magnitude();
        proof {
            lemma_mul_le(max_length as int, max_length as int, COORD_LIMIT as int,
                COORD_LIMIT as int);
        }
        if sqr > max_length * max_length {
            let mag = self.magnitude();
            proof {
                lemma_square_nonneg(max_length as int);
                crate::math::lemma_sqrt_floor_bounds(self@.norm2() as nat);
                let s = sqrt_floor(self@.norm2() as nat);
                assert(mag * mag == s * s);
                assert(mag > 0) by (nonlinear_arith)
                    requires
                        mag >= 0,
                        self@.norm2() < (mag + 1) * (mag + 1),
                        self@.norm2() >= 1,
                ;
                lemma_mul_le(self@.x, max_length as int, COORD_LIMIT as int,
                    COORD_LIMIT as int);
                lemma_mul_le(self@.y, max_length as int, COORD_LIMIT as int,
                    COORD_LIMIT as int);
                lemma_mul_le(self@.z, max_length as int, COORD_LIMIT as int,
                    COORD_LIMIT as int);
                lemma_mul_le(self@.w, max_length as int, COORD_LIMIT as int,
                    COORD_LIMIT as int);
            }
            Vector4 {
                x: div_trunc_i64(self.x * max_length, mag),
                y: div_trunc_i64(self.y * max_length, mag),
                z: div_trunc_i64(self.z * max_length, mag),
                w: div_trunc_i64(self.w * max_length, mag),
            }
        } else {
            *self
        }
    }

    /// Projection of `v` onto `normal`; zero when `normal` is zero.
    pub fn project(v: Vector4, normal: Vector4) -> (r: Vector4)
        requires
            v@.bounded(PROJECT_LIMIT as int),
            normal@.bounded(PROJECT_LIMIT as int),
        ensures
            r@ == v@.project(normal@),
    {
        let d = Vector4::dot(normal, normal);
        proof {
            lemma_square_nonneg(normal@.x);
            lemma_square_nonneg(normal@.y);
            lemma_square_nonneg(normal@.z);
            lemma_square_nonneg(normal@.w);
        }
        if d == 0 {
            Vector4 { x: 0, y: 0, z: 0, w: 0 }
        } else {
            let s = Vector4::dot(v, normal);
            proof {
                lemma_mul_le(v@.x, normal@.x, PROJECT_LIMIT as int, PROJECT_LIMIT as int);
                lemma_mul_le(v@.y, normal@.y, PROJECT_LIMIT as int, PROJECT_LIMIT as int);
                lemma_mul_le(v@.z, normal@.z, PROJECT_LIMIT as int, PROJECT_LIMIT as int);
                lemma_mul_le(v@.w, normal@.w, PROJECT_LIMIT as int, PROJECT_LIMIT as int);
                lemma_mul_le(normal@.x, s as int, PROJECT_LIMIT as int, 0x400_0000_0000);
                lemma_mul_le(normal@.y, s as int, PROJECT_LIMIT as int, 0x400_0000_0000);
                lemma_mul_le(normal@.z, s as int, PROJECT_LIMIT as int, 0x400_0000_0000);
                lemma_mul_le(normal@.w, s as int, PROJECT_LIMIT as int, 0x400_0000_0000);
            }
            Vector4 {
                x: div_trunc_i64(normal.x * s, d),
                y: div_trunc_i64(normal.y * s, d),
                z: div_trunc_i64(normal.z * s, d),
                w: div_trunc_i64(normal.w * s, d),
            }
        }
    }

    /// Affine blend from `start` toward `end` by `t_num / t_den`, with the
    /// ratio clamped into `[0, 1]` first.
    pub fn lerp(start: Vector4, end: Vector4, t_num: i64, t_den: i64) -> (r: Vector4)
        requires
            t_den > 0,
            start@.bounded(COORD_LIMIT as int),
            end@.bounded(COORD_LIMIT as int),
            t_den <= COORD_LIMIT,
        ensures
            t_num < 0 ==> r@ == start@.lerp(end@, 0, t_den as int),
            0 <= t_num <= t_den ==> r@ == start@.lerp(end@, t_num as int, t_den as int),
            t_num > t_den ==> r@ == start@.lerp(end@, t_den as int, t_den as int),
    {
        let alpha = if t_num < 0 {
            0
        } else if t_num > t_den {
            t_den
        } else {
            t_num
        };
        Vector4::lerp_unclamped(start, end, alpha, t_den)
    }

    /// Affine blend from `start` toward `end` by the unclamped ratio
    /// `t_num / t_den`.
    pub fn lerp_unclamped(start: Vector4, end: Vector4, t_num: i64, t_den: i64) -> (r:
        Vector4)
        requires
            t_den > 0,
            start@.bounded(COORD_LIMIT as int),
            end@.bounded(COORD_LIMIT as int),
            -COORD_LIMIT <= t_num <= COORD_LIMIT,
        ensures
            r@ == start@.lerp(end@, t_num as int, t_den as int),
    {
        proof {
            lemma_mul_le(end@.x - start@.x, t_num as int, 0x8000_0000, COORD_LIMIT as int);
            lemma_mul_le(end@.y - start@.y, t_num as int, 0x8000_0000, COORD_LIMIT as int);
            lemma_mul_le(end@.z - start@.z, t_num as int, 0x8000_0000, COORD_LIMIT as int);
            lemma_mul_le(end@.w - start@.w, t_num as int, 0x8000_0000, COORD_LIMIT as int);
            lemma_div_trunc_le_abs((end@.x - start@.x) * t_num, t_den as int);
            lemma_div_trunc_le_abs((end@.y - start@.y) * t_num, t_den as int);
            lemma_div_trunc_le_abs((end@.z - start@.z) * t_num, t_den as int);
            lemma_div_trunc_le_abs((end@.w - start@.w) * t_num, t_den as int);
        }
        Vector4 {
            x: start.x + div_trunc_i64((end.x - start.x) * t_num, t_den),
            y: start.y + div_trunc_i64((end.y - start.y) * t_num, t_den),
            z: start.z + div_trunc_i64((end.z - start.z) * t_num, t_den),
            w: start.w + div_trunc_i64((end.w - start.w) * t_num, t_den),
        }
    }
}

impl ApproxEq for Vector4 {
    open spec fn approx_eq_req(self, other: Vector4) -> bool {
        true
    }

    /// At resolution [`UNIT_SCALE`] the per-coordinate float tolerance
    /// scales to below one, so approximate equality is equality of the
    /// coordinates.
    open spec fn approx_eq_spec(self, other: Vector4) -> bool {
        self@ == other@
    }

    fn approx_eq(self, other: Vector4) -> (r: bool) {
        self.x == other.x && self.y == other.y && self.z == other.z && self.w == other.w
    }
}

} // verus!
