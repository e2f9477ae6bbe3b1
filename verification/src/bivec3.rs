//! Three-dimensional bivectors in fixed point: oriented plane elements
//! with coefficients on the yz, xz and xy planes.

use vstd::prelude::*;
use crate::fixed::{
    ONE, VEC_LIM, tdiv, sqrtf, fx_div, isqrt, sat64, wide_mul2, lemma_sqrtf,
    lemma_component_le_sqrt, lemma_tdiv_scaled_bound,
};
use crate::algebra3::B3;

verus! {

/// Whether every coefficient of a model bivector is within the working
/// range.
pub open spec fn okb3(b: B3) -> bool {
    &&& -VEC_LIM <= b.yz <= VEC_LIM
    &&& -VEC_LIM <= b.xz <= VEC_LIM
    &&& -VEC_LIM <= b.xy <= VEC_LIM
}

/// The raw squared length of a model bivector.
pub open spec fn len2_b3(b: B3) -> int {
    b.yz * b.yz + b.xz * b.xz + b.xy * b.xy
}

/// The normalization model: divide by the fixed-point length, or return
/// the bivector unchanged when its length is exactly zero.
pub open spec fn spec_normalized_b3(b: B3) -> B3 {
    let l = sqrtf(len2_b3(b));
    if l == 0 {
        b
    } else {
        B3 { yz: tdiv(b.yz * ONE, l), xz: tdiv(b.xz * ONE, l), xy: tdiv(b.xy * ONE, l) }
    }
}

/// An oriented plane element with three fixed-point coefficients.
#[derive(Clone, Copy, Debug, PartialEq, Eq, Structural)]
pub struct Bivector3 {
    pub yz: i64,
    pub xz: i64,
    pub xy: i64,
}

impl View for Bivector3 {
    type V = B3;

    open spec fn view(&self) -> B3 {
        B3 { yz: self.yz as int, xz: self.xz as int, xy: self.xy as int }
    }
}

impl Bivector3 {
    /// Builds the bivector with the given plane coefficients.
    pub fn new(yz: i64, xz: i64, xy: i64) -> (r: Bivector3)
        ensures
            (r@ == B3 { yz: yz as int, xz: xz as int, xy: xy as int }),
    {
        Bivector3 { yz, xz, xy }
    }

    /// The plane with the opposite orientation.
    pub fn neg(self) -> (r: Bivector3)
        requires
            okb3(self@),
        ensures
            (r@ == B3 { yz: -self@.yz, xz: -self@.xz, xy: -self@.xy }),
            okb3(r@),
    {
        Bivector3 { yz: -self.yz, xz: -self.xz, xy: -self.xy }
    }

    /// The squared length at scale `ONE`, exact.
    pub fn length_squared(&self) -> (r: i64)
        requires
            okb3(self@),
        ensures
            r as int == tdiv(len2_b3(self@), ONE as int),
            0 <= r,
    {
        let s: i128 = wide_mul2(self.yz, self.yz) + wide_mul2(self.xz, self.xz) + wide_mul2(
            self.xy,
            self.xy,
        );
        proof {
            lemma_len2_b3_parts(self@);
        }
        let r: i64 = s as i64;
        let d: i64 = r / ONE;
        d
    }

    /// The length at scale `ONE`.
    pub fn length(&self) -> (r: i64)
        requires
            okb3(self@),
        ensures
            r as int == sqrtf(len2_b3(self@)),
            0 <= r <= 3037000499,
    {
        let s: i128 = wide_mul2(self.yz, self.yz) + wide_mul2(self.xz, self.xz) + wide_mul2(
            self.xy,
            self.xy,
        );
        proof {
            lemma_len2_b3_parts(self@);
        }
        isqrt(s as i64)
    }

    /// Scales the bivector to unit length in place; a zero bivector is
    /// left unchanged.
    pub fn normalize(&mut self)
        requires
            okb3(old(self)@),
        ensures
            (final(self)@ == spec_normalized_b3(old(self)@)),
            okb3(final(self)@),
            -ONE <= final(self)@.yz <= ONE,
            -ONE <= final(self)@.xz <= ONE,
            -ONE <= final(self)@.xy <= ONE,
    {
        let l: i64 = self.length();
        if l > 0 {
            proof {
                lemma_normb3_bounds(self@);
            }
            self.yz = sat64(fx_div(self.yz, l), ONE);
            self.xz = sat64(fx_div(self.xz, l), ONE);
            self.xy = sat64(fx_div(self.xy, l), ONE);
        } else {
            proof {
                lemma_len2_b3_zero(self@);
            }
        }
    }

    /// The bivector scaled to unit length; a zero bivector is returned
    /// unchanged.
    pub fn normalized(&self) -> (r: Bivector3)
        requires
            okb3(self@),
        ensures
            (r@ == spec_normalized_b3(self@)),
            okb3(r@),
            -ONE <= r@.yz <= ONE,
            -ONE <= r@.xz <= ONE,
            -ONE <= r@.xy <= ONE,
    {
        let mut r: Bivector3 = *self;
        r.normalize();
        r
    }
}

/// The raw squared length of an in-range bivector splits into nonnegative
/// squares, each at most `VEC_LIM^2`.
proof fn lemma_len2_b3_parts(b: B3)
    requires
        okb3(b),
    ensures
        0 <= b.yz * b.yz <= 0x1000000000000000,
        0 <= b.xz * b.xz <= 0x1000000000000000,
        0 <= b.xy * b.xy <= 0x1000000000000000,
{
    assert(0 <= b.yz * b.yz <= 0x1000000000000000) by (nonlinear_arith)
        requires
            -VEC_LIM <= b.yz <= VEC_LIM,
    ;
    assert(0 <= b.xz * b.xz <= 0x1000000000000000) by (nonlinear_arith)
        requires
            -VEC_LIM <= b.xz <= VEC_LIM,
    ;
    assert(0 <= b.xy * b.xy <= 0x1000000000000000) by (nonlinear_arith)
        requires
            -VEC_LIM <= b.xy <= VEC_LIM,
    ;
}

/// A bivector whose length is zero is the zero bivector.
proof fn lemma_len2_b3_zero(b: B3)
    requires
        sqrtf(len2_b3(b)) == 0,
    ensures
        -ONE <= b.yz <= ONE,
        -ONE <= b.xz <= ONE,
        -ONE <= b.xy <= ONE,
{
    lemma_sqrtf(len2_b3(b));
    assert(b.yz * b.yz >= 0 && b.xz * b.xz >= 0 && b.xy * b.xy >= 0) by (nonlinear_arith);
    lemma_component_le_sqrt(b.yz, len2_b3(b), 0);
    lemma_component_le_sqrt(b.xz, len2_b3(b), 0);
    lemma_component_le_sqrt(b.xy, len2_b3(b), 0);
}

/// With a positive length, each coefficient divided by the length stays
/// within one unit.
proof fn lemma_normb3_bounds(b: B3)
    requires
        okb3(b),
        sqrtf(len2_b3(b)) >= 1,
    ensures
        -ONE <= tdiv(b.yz * ONE, sqrtf(len2_b3(b))) <= ONE,
        -ONE <= tdiv(b.xz * ONE, sqrtf(len2_b3(b))) <= ONE,
        -ONE <= tdiv(b.xy * ONE, sqrtf(len2_b3(b))) <= ONE,
{
    let n = len2_b3(b);
    let l = sqrtf(n);
    lemma_sqrtf(n);
    lemma_len2_b3_parts(b);
    lemma_component_le_sqrt(b.yz, n, l);
    lemma_component_le_sqrt(b.xz, n, l);
    lemma_component_le_sqrt(b.xy, n, l);
    assert(-(l * ONE) <= b.yz * ONE <= l * ONE && -(l * ONE) <= b.xz * ONE <= l * ONE && -(l
        * ONE) <= b.xy * ONE <= l * ONE) by (nonlinear_arith)
        requires
            -l <= b.yz <= l,
            -l <= b.xz <= l,
            -l <= b.xy <= l,
            ONE >= 1,
    ;
    lemma_tdiv_scaled_bound(b.yz * ONE, l, ONE as int);
    lemma_tdiv_scaled_bound(b.xz * ONE, l, ONE as int);
    lemma_tdiv_scaled_bound(b.xy * ONE, l, ONE as int);
}

} // verus!
