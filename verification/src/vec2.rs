//! Two-dimensional vectors in fixed point, used for normalized image
//! coordinates.

use vstd::prelude::*;
use crate::fixed::{
    ONE, VEC_LIM, FX_LIM, tdiv, q1, sat, sqrtf, fx_mul, fx_div, isqrt, sat64, finish1,
    wide_mul2, lemma_sqrtf, lemma_component_le_sqrt, lemma_tdiv_scaled_bound,
};

verus! {

/// A vector with two fixed-point components.
#[derive(Clone, Copy, Debug, PartialEq, Eq, Structural)]
pub struct Fix2 {
    pub x: i64,
    pub y: i64,
}

/// Whether both components are within the working range.
pub open spec fn ok2(v: Fix2) -> bool {
    &&& -VEC_LIM <= v.x <= VEC_LIM
    &&& -VEC_LIM <= v.y <= VEC_LIM
}

/// The raw squared length.
pub open spec fn len2_v2(v: Fix2) -> int {
    (v.x as int) * (v.x as int) + (v.y as int) * (v.y as int)
}

impl Fix2 {
    /// Builds the vector with the given components.
    pub fn new(x: i64, y: i64) -> (r: Fix2)
        ensures
            r.x == x,
            r.y == y,
    {
        Fix2 { x, y }
    }

    /// Componentwise sum, saturated at the working range.
    pub fn add(self, v: Fix2) -> (r: Fix2)
        requires
            ok2(self),
            ok2(v),
        ensures
            r.x as int == sat(self.x + v.x, VEC_LIM as int),
            r.y as int == sat(self.y + v.y, VEC_LIM as int),
            ok2(r),
    {
        Fix2 { x: sat64(self.x + v.x, VEC_LIM), y: sat64(self.y + v.y, VEC_LIM) }
    }

    /// Componentwise difference, saturated at the working range.
    pub fn sub(self, v: Fix2) -> (r: Fix2)
        requires
            ok2(self),
            ok2(v),
        ensures
            r.x as int == sat(self.x - v.x, VEC_LIM as int),
            r.y as int == sat(self.y - v.y, VEC_LIM as int),
            ok2(r),
    {
        Fix2 { x: sat64(self.x - v.x, VEC_LIM), y: sat64(self.y - v.y, VEC_LIM) }
    }

    /// Componentwise negation.
    pub fn neg(self) -> (r: Fix2)
        requires
            ok2(self),
        ensures
            r.x == -self.x,
            r.y == -self.y,
            ok2(r),
    {
        Fix2 { x: -self.x, y: -self.y }
    }

    /// The vector scaled by a fixed-point scalar, saturated.
    pub fn scale(self, k: i64) -> (r: Fix2)
        requires
            ok2(self),
            -FX_LIM <= k <= FX_LIM,
        ensures
            r.x as int == sat(q1(self.x * k), VEC_LIM as int),
            r.y as int == sat(q1(self.y * k), VEC_LIM as int),
            ok2(r),
    {
        Fix2 {
            x: sat64(fx_mul(self.x, k), VEC_LIM),
            y: sat64(fx_mul(self.y, k), VEC_LIM),
        }
    }

    /// The dot product of two vectors, at scale `ONE`.
    pub fn dot(u: Fix2, v: Fix2) -> (r: i64)
        requires
            ok2(u),
            ok2(v),
        ensures
            r as int == sat(q1((u.x as int) * (v.x as int) + (u.y as int) * (v.y as int)),
                FX_LIM as int),
    {
        finish1(wide_mul2(u.x, v.x) + wide_mul2(u.y, v.y), FX_LIM)
    }

    /// The squared length at scale `ONE`, exact.
    pub fn length_squared(&self) -> (r: i64)
        requires
            ok2(*self),
        ensures
            r as int == tdiv(len2_v2(*self), ONE as int),
            0 <= r,
    {
        let s: i128 = wide_mul2(self.x, self.x) + wide_mul2(self.y, self.y);
        proof {
            lemma_len2_v2_parts(*self);
        }
        let r: i64 = s as i64;
        let d: i64 = r / ONE;
        d
    }

    /// The length at scale `ONE`.
    pub fn length(&self) -> (r: i64)
        requires
            ok2(*self),
        ensures
            r as int == sqrtf(len2_v2(*self)),
            0 <= r <= 3037000499,
    {
        let s: i128 = wide_mul2(self.x, self.x) + wide_mul2(self.y, self.y);
        proof {
            lemma_len2_v2_parts(*self);
        }
        isqrt(s as i64)
    }

    /// Scales the vector to unit length in place; a zero vector is left
    /// unchanged.
    pub fn normalize(&mut self)
        requires
            ok2(*old(self)),
        ensures
            sqrtf(len2_v2(*old(self))) == 0 ==> *final(self) == *old(self),
            sqrtf(len2_v2(*old(self))) != 0 ==> final(self).x as int == tdiv(
                old(self).x * ONE,
                sqrtf(len2_v2(*old(self))),
            ) && final(self).y as int == tdiv(old(self).y * ONE, sqrtf(len2_v2(*old(self)))),
            ok2(*final(self)),
    {
        let l: i64 = self.length();
        if l > 0 {
            proof {
                lemma_norm2_bounds(*self);
            }
            self.x = sat64(fx_div(self.x, l), VEC_LIM);
            self.y = sat64(fx_div(self.y, l), VEC_LIM);
        }
    }

    /// The vector scaled to unit length; a zero vector is returned
    /// unchanged.
    pub fn normalized(&self) -> (r: Fix2)
        requires
            ok2(*self),
        ensures
            sqrtf(len2_v2(*self)) == 0 ==> r == *self,
            sqrtf(len2_v2(*self)) != 0 ==> r.x as int == tdiv(
                self.x * ONE,
                sqrtf(len2_v2(*self)),
            ) && r.y as int == tdiv(self.y * ONE, sqrtf(len2_v2(*self))),
            ok2(r),
    {
        let mut r: Fix2 = *self;
        r.normalize();
        r
    }
}

/// The raw squared length of an in-range vector splits into nonnegative
/// squares, each at most `VEC_LIM^2`.
proof fn lemma_len2_v2_parts(v: Fix2)
    requires
        ok2(v),
    ensures
        0 <= (v.x as int) * (v.x as int) <= 0x1000000000000000,
        0 <= (v.y as int) * (v.y as int) <= 0x1000000000000000,
{
    assert(0 <= (v.x as int) * (v.x as int) <= 0x1000000000000000) by (nonlinear_arith)
        requires
            -VEC_LIM <= v.x <= VEC_LIM,
    ;
    assert(0 <= (v.y as int) * (v.y as int) <= 0x1000000000000000) by (nonlinear_arith)
        requires
            -VEC_LIM <= v.y <= VEC_LIM,
    ;
}

/// With a positive length, each component divided by the length stays
/// within one unit.
proof fn lemma_norm2_bounds(v: Fix2)
    requires
        ok2(v),
        sqrtf(len2_v2(v)) >= 1,
    ensures
        -ONE <= tdiv(v.x * ONE, sqrtf(len2_v2(v))) <= ONE,
        -ONE <= tdiv(v.y * ONE, sqrtf(len2_v2(v))) <= ONE,
{
    let n = len2_v2(v);
    let l = sqrtf(n);
    lemma_sqrtf(n);
    lemma_len2_v2_parts(v);
    lemma_component_le_sqrt(v.x as int, n, l);
    lemma_component_le_sqrt(v.y as int, n, l);
    assert(-(l * ONE) <= v.x * ONE <= l * ONE && -(l * ONE) <= v.y * ONE <= l * ONE)
        by (nonlinear_arith)
        requires
            -l <= v.x <= l,
            -l <= v.y <= l,
            ONE >= 1,
    ;
    lemma_tdiv_scaled_bound(v.x * ONE, l, ONE as int);
    lemma_tdiv_scaled_bound(v.y * ONE, l, ONE as int);
}

} // verus!
