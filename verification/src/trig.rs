//! Fixed-point trigonometric kernels: sine, cosine and arc cosine.
//!
//! Angles are fixed-point radians.  Each executable kernel is pinned to a
//! spec-level model of the same computation: range reduction into one
//! period, folding into a quarter period, and a truncated Taylor
//! polynomial.  The models are exact statements of what is computed; how
//! close the result is to the real function is exercised by the tests.

use vstd::prelude::*;
use crate::fixed::{ONE, FX_LIM, tdiv, q1, absi, fx_mul, lemma_tdiv_scaled_bound};

verus! {

/// Pi in fixed-point radians.
pub const PI_FX: i64 = 3294199;

/// Two pi in fixed-point radians.
pub const TWO_PI_FX: i64 = 6588397;

/// Half pi in fixed-point radians.
pub const HALF_PI_FX: i64 = 1647099;

/// One degree in fixed-point radians.
pub const DEG_TO_RAD_FX: i64 = 18301;

/// Largest angle magnitude the kernels accept: two full turns.
pub const ANGLE_LIM: i64 = 13176794;

/// Range reduction into `[-PI_FX, PI_FX]` by whole turns.
pub open spec fn spec_reduce(x: int) -> int
    decreases absi(x),
{
    if x > PI_FX as int {
        spec_reduce(x - TWO_PI_FX as int)
    } else if x < -(PI_FX as int) {
        spec_reduce(x + TWO_PI_FX as int)
    } else {
        x
    }
}

/// Folding of a reduced angle into `[-HALF_PI_FX, HALF_PI_FX]`, using the
/// symmetry of the sine about a quarter turn.
pub open spec fn spec_fold(x: int) -> int {
    if x > HALF_PI_FX as int {
        PI_FX as int - x
    } else if x < -(HALF_PI_FX as int) {
        -(PI_FX as int) - x
    } else {
        x
    }
}

/// The truncated Taylor polynomial of the sine on the folded range, in
/// fixed point with truncating rescaling.
pub open spec fn spec_sin_poly(x: int) -> int {
    let x2 = q1(x * x);
    let x3 = q1(x2 * x);
    let x5 = q1(x3 * x2);
    let x7 = q1(x5 * x2);
    let x9 = q1(x7 * x2);
    let x11 = q1(x9 * x2);
    x - tdiv(x3, 6) + tdiv(x5, 120) - tdiv(x7, 5040) + tdiv(x9, 362880) - tdiv(x11, 39916800)
}

/// The fixed-point sine: reduce, fold, then the polynomial.
pub open spec fn spec_sin(x: int) -> int {
    spec_sin_poly(spec_fold(spec_reduce(x)))
}

/// The fixed-point cosine: the sine advanced by a quarter turn.
pub open spec fn spec_cos(x: int) -> int {
    spec_sin(x + HALF_PI_FX as int)
}

/// One bisection step count for the arc cosine.
pub open spec fn spec_acos_iter(x: int, lo: int, hi: int, n: nat) -> int
    decreases n,
{
    if n == 0 {
        lo
    } else {
        let mid = (lo + hi) / 2;
        if spec_cos(mid) > x {
            spec_acos_iter(x, mid, hi, (n - 1) as nat)
        } else {
            spec_acos_iter(x, lo, mid, (n - 1) as nat)
        }
    }
}

/// The fixed-point arc cosine: bisection of the cosine over `[0, PI_FX]`.
pub open spec fn spec_acos(x: int) -> int {
    spec_acos_iter(x, 0, PI_FX as int, 24)
}

/// The sine of a fixed-point angle within two turns.
pub fn sin_fx(x: i64) -> (r: i64)
    requires
        -ANGLE_LIM <= x <= ANGLE_LIM,
    ensures
        r as int == spec_sin(x as int),
        -4194304 <= r <= 4194304,
{
    let mut y: i64 = x;
    while y > PI_FX
        invariant
            -ANGLE_LIM <= y <= ANGLE_LIM,
            spec_reduce(y as int) == spec_reduce(x as int),
        decreases absi(y as int),
    {
        y = y - TWO_PI_FX;
    }
    while y < -PI_FX
        invariant
            -ANGLE_LIM <= y <= PI_FX,
            spec_reduce(y as int) == spec_reduce(x as int),
        decreases absi(y as int),
    {
        y = y + TWO_PI_FX;
    }
    let f: i64 = if y > HALF_PI_FX {
        PI_FX - y
    } else if y < -HALF_PI_FX {
        -PI_FX - y
    } else {
        y
    };
    sin_poly(f)
}

/// The Taylor kernel on the folded range.
fn sin_poly(x: i64) -> (r: i64)
    requires
        -HALF_PI_FX <= x <= HALF_PI_FX,
    ensures
        r as int == spec_sin_poly(x as int),
        -4194304 <= r <= 4194304,
{
    proof {
        assert((x as int) * (x as int) <= (ONE as int) * 0x400000) by (nonlinear_arith)
            requires
                -HALF_PI_FX <= x <= HALF_PI_FX,
        ;
        assert((x as int) * (x as int) >= 0) by (nonlinear_arith);
        lemma_tdiv_scaled_bound((x as int) * (x as int), ONE as int, 0x400000);
    }
    let x2: i64 = fx_mul(x, x);
    proof {
        assert(-(ONE as int) * 0x800000 <= (x2 as int) * (x as int) <= (ONE as int) * 0x800000)
            by (nonlinear_arith)
            requires
                0 <= x2 <= 0x400000,
                -HALF_PI_FX <= x <= HALF_PI_FX,
        ;
        lemma_tdiv_scaled_bound((x2 as int) * (x as int), ONE as int, 0x800000);
    }
    let x3: i64 = fx_mul(x2, x);
    proof {
        assert(-(ONE as int) * 0x2000000 <= (x3 as int) * (x2 as int) <= (ONE as int)
            * 0x2000000) by (nonlinear_arith)
            requires
                -0x800000 <= x3 <= 0x800000,
                0 <= x2 <= 0x400000,
        ;
        lemma_tdiv_scaled_bound((x3 as int) * (x2 as int), ONE as int, 0x2000000);
    }
    let x5: i64 = fx_mul(x3, x2);
    proof {
        assert(-(ONE as int) * 0x8000000 <= (x5 as int) * (x2 as int) <= (ONE as int)
            * 0x8000000) by (nonlinear_arith)
            requires
                -0x2000000 <= x5 <= 0x2000000,
                0 <= x2 <= 0x400000,
        ;
        lemma_tdiv_scaled_bound((x5 as int) * (x2 as int), ONE as int, 0x8000000);
    }
    let x7: i64 = fx_mul(x5, x2);
    proof {
        assert(-(ONE as int) * 0x20000000 <= (x7 as int) * (x2 as int) <= (ONE as int)
            * 0x20000000) by (nonlinear_arith)
            requires
                -0x8000000 <= x7 <= 0x8000000,
                0 <= x2 <= 0x400000,
        ;
        lemma_tdiv_scaled_bound((x7 as int) * (x2 as int), ONE as int, 0x20000000);
    }
    let x9: i64 = fx_mul(x7, x2);
    proof {
        assert(-(ONE as int) * 0x80000000 <= (x9 as int) * (x2 as int) <= (ONE as int)
            * 0x80000000) by (nonlinear_arith)
            requires
                -0x20000000 <= x9 <= 0x20000000,
                0 <= x2 <= 0x400000,
        ;
        lemma_tdiv_scaled_bound((x9 as int) * (x2 as int), ONE as int, 0x80000000);
    }
    let x11: i64 = fx_mul(x9, x2);
    x - x3 / 6 + x5 / 120 - x7 / 5040 + x9 / 362880 - x11 / 39916800
}

/// The cosine of a fixed-point angle within two turns less a quarter.
pub fn cos_fx(x: i64) -> (r: i64)
    requires
        -ANGLE_LIM <= x <= ANGLE_LIM - HALF_PI_FX,
    ensures
        r as int == spec_cos(x as int),
        -4194304 <= r <= 4194304,
{
    sin_fx(x + HALF_PI_FX)
}

/// The arc cosine of a fixed-point scalar in `[-ONE, ONE]`, in
/// `[0, PI_FX]`, by bisection of the cosine.
pub fn acos_fx(x: i64) -> (r: i64)
    requires
        -ONE <= x <= ONE,
    ensures
        r as int == spec_acos(x as int),
        0 <= r <= PI_FX,
{
    let mut lo: i64 = 0;
    let mut hi: i64 = PI_FX;
    let mut n: u64 = 24;
    while n > 0
        invariant
            0 <= lo <= hi <= PI_FX,
            n <= 24,
            -ONE <= x <= ONE,
            spec_acos_iter(x as int, lo as int, hi as int, n as nat) == spec_acos(x as int),
        decreases n,
    {
        let mid: i64 = (lo + hi) / 2;
        if cos_fx(mid) > x {
            lo = mid;
        } else {
            hi = mid;
        }
        n = n - 1;
    }
    lo
}

} // verus!
