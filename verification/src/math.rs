//! Shared integer arithmetic: the floor square root and truncating division,
//! each with a spec-level definition that the executable code is proved
//! against.

use vstd::prelude::*;

verus! {

/// Floor of the square root of `n`, defined by counting upward.
pub open spec fn sqrt_floor(n: nat) -> nat
    decreases n,
{
    if n == 0 {
        0
    } else {
        let r = sqrt_floor((n - 1) as nat);
        if (r + 1) * (r + 1) <= n {
            r + 1
        } else {
            r
        }
    }
}

/// `sqrt_floor(n)` is the unique value whose square brackets `n`.
pub proof fn lemma_sqrt_floor_bounds(n: nat)
    ensures
        sqrt_floor(n) * sqrt_floor(n) <= n,
        n < (sqrt_floor(n) + 1) * (sqrt_floor(n) + 1),
    decreases n,
{
    let s = sqrt_floor(n);
    if n == 0 {
        assert(s * s <= n) by (nonlinear_arith)
            requires
                s == 0,
                n == 0,
        ;
        assert(n < (s + 1) * (s + 1)) by (nonlinear_arith)
            requires
                s == 0,
                n == 0,
        ;
    } else {
        lemma_sqrt_floor_bounds((n - 1) as nat);
        let r = sqrt_floor((n - 1) as nat);
        assert(r * r <= n - 1);
        assert(n - 1 < (r + 1) * (r + 1));
        if (r + 1) * (r + 1) <= n {
            assert(s == r + 1);
            assert(s * s <= n) by (nonlinear_arith)
                requires
                    s == r + 1,
                    (r + 1) * (r + 1) <= n,
            ;
            assert(n < (s + 1) * (s + 1)) by (nonlinear_arith)
                requires
                    s == r + 1,
                    n <= (r + 1) * (r + 1),
            ;
        } else {
            assert(s == r);
            assert(s * s <= n) by (nonlinear_arith)
                requires
                    s == r,
                    r * r <= n - 1,
            ;
            assert(n < (s + 1) * (s + 1)) by (nonlinear_arith)
                requires
                    s == r,
                    n < (r + 1) * (r + 1),
            ;
        }
    }
}

/// Any value whose square brackets `n` is `sqrt_floor(n)`.
pub proof fn lemma_sqrt_floor_unique(n: nat, r: nat)
    requires
        r * r <= n,
        n < (r + 1) * (r + 1),
    ensures
        r == sqrt_floor(n),
{
    lemma_sqrt_floor_bounds(n);
    let s = sqrt_floor(n);
    assert(r == s) by (nonlinear_arith)
        requires
            r * r <= n,
            n < (r + 1) * (r + 1),
            s * s <= n,
            n < (s + 1) * (s + 1),
    ;
}

/// Floor square root by binary search on the bracketing invariant.
pub fn isqrt(n: u64) -> (r: u64)
    ensures
        r * r <= n < (r + 1) * (r + 1),
        r == sqrt_floor(n as nat),
{
    let mut lo: u64 = 0;
    let mut hi: u64 = if n < 0xFFFF_FFFF {
        n + 1
    } else {
        0x1_0000_0000
    };
    proof {
        assert(n < (n + 1) * (n + 1)) by (nonlinear_arith);
    }
    while lo + 1 < hi
        invariant
            lo < hi <= 0x1_0000_0000,
            lo * lo <= n,
            n < hi * hi,
        decreases hi - lo,
    {
        let mid = lo + (hi - lo) / 2;
        proof {
            assert(mid * mid <= 0xFFFF_FFFF * 0xFFFF_FFFF) by (nonlinear_arith)
                requires
                    mid <= 0xFFFF_FFFF,
            ;
        }
        if mid * mid <= n {
            lo = mid;
        } else {
            hi = mid;
        }
    }
    proof {
        lemma_sqrt_floor_unique(n as nat, lo as nat);
    }
    lo
}

/// A product is bounded by the product of the bounds.
pub(crate) proof fn lemma_mul_le(x: int, y: int, bx: int, by: int)
    by (nonlinear_arith)
    requires
        -bx <= x <= bx,
        -by <= y <= by,
    ensures
        -(bx * by) <= x * y <= bx * by,
{
}

/// Squares are never negative.
pub(crate) proof fn lemma_square_nonneg(x: int)
    by (nonlinear_arith)
    ensures
        x * x >= 0,
{
}

/// Distribute a factor from the left over a three-term sum.
pub(crate) proof fn lemma_dist3_left(u1: int, u2: int, u3: int, c: int, t: int)
    by (nonlinear_arith)
    requires
        t == u1 + u2 + u3,
    ensures
        c * t == c * u1 + c * u2 + c * u3,
{
}

/// Swap the outer factor into the inner product.
pub(crate) proof fn lemma_swap3(p: int, q: int, r: int)
    by (nonlinear_arith)
    ensures
        p * (q * r) == q * (p * r),
{
}

/// A tripled bound distributes over a product.
pub(crate) proof fn lemma_triple_mul(b: int, d: int)
    by (nonlinear_arith)
    ensures
        (3 * b) * d == 3 * (b * d),
{
}

/// The larger of a value and zero.
pub open spec fn max0(t: int) -> int {
    if t > 0 {
        t
    } else {
        0
    }
}

/// Division truncated toward zero, as the machine's `/` computes it.
pub open spec fn div_trunc(a: int, b: int) -> int {
    if a >= 0 {
        a / b
    } else {
        -((-a) / b)
    }
}

/// Truncating division moves a value toward zero.
pub proof fn lemma_div_trunc_le_abs(a: int, d: int)
    by (nonlinear_arith)
    requires
        d >= 1,
    ensures
        a >= 0 ==> 0 <= div_trunc(a, d) <= a,
        a < 0 ==> a <= div_trunc(a, d) <= 0,
{
}

/// A quotient stays within `c` when the dividend is within `c * d`.
pub proof fn lemma_div_trunc_bound(a: int, d: int, c: int)
    by (nonlinear_arith)
    requires
        d >= 1,
        c >= 0,
        -(c * d) <= a <= c * d,
    ensures
        -c <= div_trunc(a, d) <= c,
{
}

/// Truncating division of a signed value by a positive one.
pub(crate) fn div_trunc_i64(a: i64, b: i64) -> (r: i64)
    requires
        b > 0,
        a > i64::MIN,
    ensures
        r == div_trunc(a as int, b as int),
{
    if a >= 0 {
        let q = (a as u64) / (b as u64);
        proof {
            assert(q <= a) by (nonlinear_arith)
                requires
                    q == (a as u64) / (b as u64),
                    a >= 0,
                    b >= 1,
            ;
        }
        q as i64
    } else {
        let q = ((-a) as u64) / (b as u64);
        proof {
            assert(q <= -a) by (nonlinear_arith)
                requires
                    q == ((-a) as u64) / (b as u64),
                    -a >= 0,
                    b >= 1,
            ;
        }
        -(q as i64)
    }
}

} // verus!
