//! The scalar kernel: fixed-point arithmetic on `i64`.
//!
//! A scalar is stored as an `i64` multiple of `1 / ONE`.  Multiplying two
//! scalars yields a doubled-scale product, which is brought back to scale
//! with a truncating (round-toward-zero) division; `tdiv` is the exact
//! specification of that rounding, and every executable operation here is
//! pinned to it.

use vstd::prelude::*;
use vstd::arithmetic::div_mod::{
    lemma_div_pos_is_pos, lemma_div_nonincreasing, lemma_multiply_divide_le,
    lemma_div_multiples_vanish, lemma_fundamental_div_mod,
    lemma_mod_division_less_than_divisor,
};

verus! {

/// One unit in the fixed-point encoding (2^20): all scalars, coordinates
/// and angles in this crate are `i64` multiples of `1 / ONE`.
pub const ONE: i64 = 1048576;

/// Largest magnitude admitted for a fixed-point factor (2^41): products of
/// two such factors rescale into an `i64` without overflow.
pub const FX_LIM: i64 = 0x20000000000;

/// Tolerance of `approx_equal`, in raw fixed-point units.
pub const APPROX_EPS: i64 = 2;

/// The absolute value of an integer.
pub open spec fn absi(a: int) -> int {
    if a < 0 {
        -a
    } else {
        a
    }
}

/// Truncating (round-toward-zero) division, defined for any divisor
/// `b != 0`.  This is the rounding of Rust's `/` on signed integers, and
/// the one the executable fixed-point operations use.
pub open spec fn tdiv(a: int, b: int) -> int {
    let q = absi(a) / absi(b);
    if (a < 0) != (b < 0) {
        -q
    } else {
        q
    }
}

/// Rescale a product of two scale-`ONE` quantities back to scale `ONE`.
pub open spec fn q1(a: int) -> int {
    tdiv(a, ONE as int)
}

/// Rescale a product of three scale-`ONE` quantities back to scale `ONE`.
pub open spec fn q2(a: int) -> int {
    tdiv(a, (ONE as int) * (ONE as int))
}

/// The integer square root: the largest `r` with `r * r <= n` (0 for
/// nonpositive arguments).
pub open spec fn sqrtf(n: int) -> int
    decreases (if n >= 0 { n } else { 0 }),
{
    if n <= 0 {
        0
    } else if (sqrtf(n - 1) + 1) * (sqrtf(n - 1) + 1) <= n {
        sqrtf(n - 1) + 1
    } else {
        sqrtf(n - 1)
    }
}

/// `sqrtf(n)` is the floor of the square root: it is nonnegative, squares
/// to at most `n`, and the next integer squares above `n`.
pub proof fn lemma_sqrtf(n: int)
    ensures
        0 <= sqrtf(n),
        n >= 0 ==> sqrtf(n) * sqrtf(n) <= n,
        n < (sqrtf(n) + 1) * (sqrtf(n) + 1),
    decreases (if n >= 0 { n } else { 0 }),
{
    if n <= 0 {
        assert(sqrtf(n) == 0);
        assert(n < (sqrtf(n) + 1) * (sqrtf(n) + 1));
    } else {
        lemma_sqrtf(n - 1);
        let s = sqrtf(n - 1);
        assert((s + 1) * (s + 1) < (s + 2) * (s + 2)) by (nonlinear_arith)
            requires
                s >= 0,
        ;
        if (s + 1) * (s + 1) <= n {
            assert(sqrtf(n) == s + 1);
            assert(n - 1 < (s + 1) * (s + 1));
            assert(n < (s + 2) * (s + 2));
        } else {
            assert(sqrtf(n) == s);
        }
    }
}

/// An integer that brackets `n` between its square and the next square is
/// the floor square root: the bracketing integer is unique.
pub proof fn lemma_sqrtf_unique(n: int, r: int)
    requires
        0 <= r,
        r * r <= n,
        n < (r + 1) * (r + 1),
    ensures
        r == sqrtf(n),
{
    lemma_sqrtf(n);
    let s = sqrtf(n);
    assert(r == s) by (nonlinear_arith)
        requires
            0 <= r,
            0 <= s,
            r * r <= n,
            n < (r + 1) * (r + 1),
            s * s <= n,
            n < (s + 1) * (s + 1),
    ;
}

/// The magnitude of a truncating quotient never exceeds the magnitude of
/// the dividend.
pub proof fn lemma_tdiv_bound(a: int, b: int, m: int)
    requires
        b != 0,
        -m <= a <= m,
    ensures
        -m <= tdiv(a, b) <= m,
{
    lemma_div_pos_is_pos(absi(a), absi(b));
    lemma_div_nonincreasing(absi(a), absi(b));
}

/// With the dividend at most `m` times the (positive) divisor, the
/// truncating quotient is at most `m` in magnitude.
pub proof fn lemma_tdiv_scaled_bound(a: int, b: int, m: int)
    requires
        b >= 1,
        0 <= m,
        -(b * m) <= a <= b * m,
    ensures
        -m <= tdiv(a, b) <= m,
{
    lemma_div_pos_is_pos(absi(a), b);
    lemma_multiply_divide_le(absi(a), b, m);
}

/// Truncating division of an `i128` by a nonzero `i128`, with both
/// magnitudes small enough that negating them cannot overflow.
fn div_trunc(a: i128, b: i128) -> (r: i128)
    requires
        b != 0,
        -0x40000000000000000000000000000000 < a < 0x40000000000000000000000000000000,
        -0x40000000000000000000000000000000 < b < 0x40000000000000000000000000000000,
    ensures
        r as int == tdiv(a as int, b as int),
{
    let neg: bool = (a < 0) != (b < 0);
    let aa: i128 = if a < 0 {
        -a
    } else {
        a
    };
    let bb: i128 = if b < 0 {
        -b
    } else {
        b
    };
    proof {
        lemma_div_pos_is_pos(aa as int, bb as int);
        lemma_div_nonincreasing(aa as int, bb as int);
    }
    let q: i128 = aa / bb;
    if neg {
        -q
    } else {
        q
    }
}

/// The product of two fixed-point scalars, rescaled to scale `ONE` with
/// truncation toward zero.
pub fn fx_mul(a: i64, b: i64) -> (r: i64)
    requires
        -FX_LIM <= a <= FX_LIM,
        -FX_LIM <= b <= FX_LIM,
    ensures
        r as int == q1(a * b),
{
    proof {
        assert(-(FX_LIM as int * FX_LIM as int) <= (a as int) * (b as int)
            <= FX_LIM as int * FX_LIM as int) by (nonlinear_arith)
            requires
                -FX_LIM <= a <= FX_LIM,
                -FX_LIM <= b <= FX_LIM,
        ;
    }
    let p: i128 = (a as i128) * (b as i128);
    proof {
        assert((ONE as int) * 0x4000000000000000 == FX_LIM as int * FX_LIM as int);
        lemma_tdiv_scaled_bound(p as int, ONE as int, 0x4000000000000000);
    }
    let q: i128 = div_trunc(p, ONE as i128);
    q as i64
}

/// The quotient of two fixed-point scalars (`a / b` at scale `ONE`),
/// truncated toward zero.
pub fn fx_div(a: i64, b: i64) -> (r: i64)
    requires
        b != 0,
        -FX_LIM <= a <= FX_LIM,
    ensures
        r as int == tdiv(a * ONE, b as int),
{
    let p: i128 = (a as i128) * (ONE as i128);
    proof {
        lemma_tdiv_bound(p as int, b as int, FX_LIM as int * ONE as int);
    }
    let q: i128 = div_trunc(p, b as i128);
    q as i64
}

/// The integer square root of a raw (already summed) nonnegative value.
pub fn isqrt(n: i64) -> (r: i64)
    requires
        0 <= n,
    ensures
        r as int == sqrtf(n as int),
        0 <= r <= 3037000499,
        r * r <= n,
        n < (r + 1) * (r + 1),
{
    let mut lo: i64 = 0;
    let mut hi: i64 = 3037000500;
    proof {
        assert(3037000500int * 3037000500int > n as int) by (nonlinear_arith)
            requires
                n <= 0x7fffffffffffffff,
        ;
    }
    while lo + 1 < hi
        invariant
            0 <= lo < hi <= 3037000500,
            lo * lo <= n,
            n < hi * hi,
        decreases hi - lo,
    {
        let mid: i64 = lo + (hi - lo) / 2;
        proof {
            lemma_div_pos_is_pos((hi - lo) as int, 2);
            lemma_div_nonincreasing((hi - lo) as int, 2);
            assert(lo < mid < hi);
        }
        let quot: i64 = n / mid;
        proof {
            lemma_div_pos_is_pos(n as int, mid as int);
            lemma_div_nonincreasing(n as int, mid as int);
            lemma_fundamental_div_mod(n as int, mid as int);
            lemma_mod_division_less_than_divisor(n as int, mid as int);
        }
        let ghost nq: int = (n as int) / (mid as int);
        let ghost nr: int = (n as int) % (mid as int);
        if mid <= quot {
            proof {
                assert(mid * mid <= n) by (nonlinear_arith)
                    requires
                        1 <= mid,
                        mid <= nq,
                        n == mid * nq + nr,
                        nr >= 0,
                ;
            }
            lo = mid;
        } else {
            proof {
                assert(n < mid * mid) by (nonlinear_arith)
                    requires
                        1 <= mid,
                        nq <= mid - 1,
                        n == mid * nq + nr,
                        nr < mid,
                        nr >= 0,
                ;
            }
            hi = mid;
        }
    }
    proof {
        lemma_sqrtf_unique(n as int, lo as int);
    }
    lo
}

/// Clamps `x` into the closed interval `[lo, hi]`.
pub fn clamp(x: i64, lo: i64, hi: i64) -> (r: i64)
    ensures
        x < lo ==> r == lo,
        x >= lo && x > hi ==> r == hi,
        lo <= x <= hi ==> r == x,
{
    if x < lo {
        return lo;
    }
    if x > hi {
        return hi;
    }
    x
}

/// Largest magnitude of a vector or bivector component (2^30, about a
/// thousand spatial units): componentwise results saturate here, so that
/// squared lengths still fit an `i64`.
pub const VEC_LIM: i64 = 0x40000000;

/// Largest magnitude of a rotor component (2^24, sixteen units): rotors
/// are kept near unit length, and rotor products saturate here.
pub const ROT_LIM: i64 = 0x1000000;

/// `ONE * ONE`, the divisor that brings a triple product back to scale.
pub const ONE_SQ: i64 = 0x10000000000;

/// Saturation: `a` clamped into `[-lim, lim]`.
pub open spec fn sat(a: int, lim: int) -> int {
    if a < -lim {
        -lim
    } else if a > lim {
        lim
    } else {
        a
    }
}

/// Brings a wide intermediate value back to `i64`, saturating at `lim`.
pub(crate) fn sat128(a: i128, lim: i64) -> (r: i64)
    requires
        0 <= lim,
    ensures
        r as int == sat(a as int, lim as int),
{
    if a > lim as i128 {
        lim
    } else if a < -(lim as i128) {
        -lim
    } else {
        a as i64
    }
}

/// The wide product of two components, exact in `i128`.
pub(crate) fn wide_mul2(p: i64, q: i64) -> (o: i128)
    requires
        -0x200000000 <= p <= 0x200000000,
        -0x200000000 <= q <= 0x200000000,
    ensures
        o as int == p * q,
        -0x40000000000000000 <= o <= 0x40000000000000000,
{
    proof {
        assert(-0x40000000000000000 <= (p as int) * (q as int) <= 0x40000000000000000)
            by (nonlinear_arith)
            requires
                -0x200000000 <= p <= 0x200000000,
                -0x200000000 <= q <= 0x200000000,
        ;
    }
    (p as i128) * (q as i128)
}

/// The wide product of three components, exact in `i128` and grouped as
/// `p * (q * r)` so that contracts can cite the same grouping.
pub(crate) fn wide_mul3(p: i64, q: i64, r: i64) -> (o: i128)
    requires
        -0x200000000 <= p <= 0x200000000,
        -0x200000000 <= q <= 0x200000000,
        -0x200000000 <= r <= 0x200000000,
    ensures
        o as int == p * (q * r),
        -0x8000000000000000000000000 <= o <= 0x8000000000000000000000000,
{
    proof {
        assert(-0x40000000000000000 <= (q as int) * (r as int) <= 0x40000000000000000)
            by (nonlinear_arith)
            requires
                -0x200000000 <= q <= 0x200000000,
                -0x200000000 <= r <= 0x200000000,
        ;
        assert(-0x8000000000000000000000000 <= (p as int) * ((q as int) * (r as int))
            <= 0x8000000000000000000000000) by (nonlinear_arith)
            requires
                -0x200000000 <= p <= 0x200000000,
                -0x40000000000000000 <= (q as int) * (r as int) <= 0x40000000000000000,
        ;
    }
    (p as i128) * ((q as i128) * (r as i128))
}

/// Saturation of an `i64` at `lim`.
pub(crate) fn sat64(a: i64, lim: i64) -> (r: i64)
    requires
        0 <= lim,
    ensures
        r as int == sat(a as int, lim as int),
{
    if a > lim {
        lim
    } else if a < -lim {
        -lim
    } else {
        a
    }
}

/// Rescales a doubled-scale wide sum and saturates it at `lim`.
pub(crate) fn finish1(sum: i128, lim: i64) -> (r: i64)
    requires
        0 <= lim,
        -0x40000000000000000000000000000000 < sum < 0x40000000000000000000000000000000,
    ensures
        r as int == sat(q1(sum as int), lim as int),
{
    sat128(div_trunc(sum, ONE as i128), lim)
}

/// Rescales a tripled-scale wide sum and saturates it at `lim`.
pub(crate) fn finish2(sum: i128, lim: i64) -> (r: i64)
    requires
        0 <= lim,
        -0x40000000000000000000000000000000 < sum < 0x40000000000000000000000000000000,
    ensures
        r as int == sat(q2(sum as int), lim as int),
{
    sat128(div_trunc(sum, ONE_SQ as i128), lim)
}

/// A component is bounded by the square root of the componentwise sum of
/// squares it contributes to.
pub proof fn lemma_component_le_sqrt(x: int, n: int, l: int)
    requires
        x * x <= n,
        0 <= l,
        n < (l + 1) * (l + 1),
    ensures
        -l <= x <= l,
{
    assert(-l <= x <= l) by (nonlinear_arith)
        requires
            x * x <= n,
            0 <= l,
            n < (l + 1) * (l + 1),
    ;
}

/// Whether two fixed-point scalars differ by less than `APPROX_EPS`.
pub fn approx_equal(x: i64, y: i64) -> (r: bool)
    requires
        -FX_LIM <= x <= FX_LIM,
        -FX_LIM <= y <= FX_LIM,
    ensures
        r == (absi(x - y) < APPROX_EPS),
{
    let d: i64 = if x >= y {
        x - y
    } else {
        y - x
    };
    d < APPROX_EPS
}

} // verus!
