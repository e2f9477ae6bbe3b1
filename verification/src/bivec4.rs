//! Four-dimensional bivectors in fixed point: oriented plane elements
//! with coefficients on the yz, xz, xy, xw, yw and zw planes.

use vstd::prelude::*;
use crate::fixed::{
    ONE, VEC_LIM, tdiv, sqrtf, fx_div, isqrt, sat64, wide_mul2, lemma_sqrtf,
    lemma_component_le_sqrt, lemma_tdiv_scaled_bound,
};
use crate::algebra4::B4;

verus! {

/// Whether every coefficient of a model bivector is within the working
/// range.
pub open spec fn okb4(b: B4) -> bool {
    &&& -VEC_LIM <= b.yz <= VEC_LIM
    &&& -VEC_LIM <= b.xz <= VEC_LIM
    &&& -VEC_LIM <= b.xy <= VEC_LIM
    &&& -VEC_LIM <= b.xw <= VEC_LIM
    &&& -VEC_LIM <= b.yw <= VEC_LIM
    &&& -VEC_LIM <= b.zw <= VEC_LIM
}

/// The raw squared length of a model bivector.
pub open spec fn len2_b4(b: B4) -> int {
    b.yz * b.yz + b.xz * b.xz + b.xy * b.xy + b.xw * b.xw + b.yw * b.yw + b.zw * b.zw
}

/// The normalization model: divide by the fixed-point length, or return
/// the bivector unchanged when its length is exactly zero.
pub open spec fn spec_normalized_b4(b: B4) -> B4 {
    let l = sqrtf(len2_b4(b));
    if l == 0 {
        b
    } else {
        B4 {
            yz: tdiv(b.yz * ONE, l),
            xz: tdiv(b.xz * ONE, l),
            xy: tdiv(b.xy * ONE, l),
            xw: tdiv(b.xw * ONE, l),
            yw: tdiv(b.yw * ONE, l),
            zw: tdiv(b.zw * ONE, l),
        }
    }
}

/// An oriented plane element with three fixed-point coefficients.
#[derive(Clone, Copy, Debug, PartialEq, Eq, Structural)]
pub struct Bivector4 {
    pub yz: i64,
    pub xz: i64,
    pub xy: i64,
    pub xw: i64,
    pub yw: i64,
    pub zw: i64,
}

impl View for Bivector4 {
    type V = B4;

    open spec fn view(&self) -> B4 {
        B4 {
            yz: self.yz as int,
            xz: self.xz as int,
            xy: self.xy as int,
            xw: self.xw as int,
            yw: self.yw as int,
            zw: self.zw as int,
        }
    }
}

impl Bivector4 {
    /// Builds the bivector with the given plane coefficients.
    pub fn new(yz: i64, xz: i64, xy: i64, xw: i64, yw: i64, zw: i64) -> (r: Bivector4)
        ensures
            (r@ == B4 {
                yz: yz as int,
                xz: xz as int,
                xy: xy as int,
                xw: xw as int,
                yw: yw as int,
                zw: zw as int,
            }),
    {
        Bivector4 { yz, xz, xy, xw, yw, zw }
    }

    /// The plane with the opposite orientation.
    pub fn neg(self) -> (r: Bivector4)
        requires
            okb4(self@),
        ensures
            (r@ == B4 {
                yz: -self@.yz,
                xz: -self@.xz,
                xy: -self@.xy,
                xw: -self@.xw,
                yw: -self@.yw,
                zw: -self@.zw,
            }),
            okb4(r@),
    {
        Bivector4 {
            yz: -self.yz,
            xz: -self.xz,
            xy: -self.xy,
            xw: -self.xw,
            yw: -self.yw,
            zw: -self.zw,
        }
    }

    /// The squared length at scale `ONE`, exact.
    pub fn length_squared(&self) -> (r: i64)
        requires
            okb4(self@),
        ensures
            r as int == tdiv(len2_b4(self@), ONE as int),
            0 <= r,
    {
        let s: i128 = wide_mul2(self.yz, self.yz) + wide_mul2(self.xz, self.xz) + wide_mul2(
            self.xy,
            self.xy,
        ) + wide_mul2(self.xw, self.xw) + wide_mul2(self.yw, self.yw) + wide_mul2(
            self.zw,
            self.zw,
        );
        proof {
            lemma_len2_b4_parts(self@);
        }
        let r: i64 = s as i64;
        let d: i64 = r / ONE;
        d
    }

    /// The length at scale `ONE`.
    pub fn length(&self) -> (r: i64)
        requires
            okb4(self@),
        ensures
            r as int == sqrtf(len2_b4(self@)),
            0 <= r <= 3037000499,
    {
        let s: i128 = wide_mul2(self.yz, self.yz) + wide_mul2(self.xz, self.xz) + wide_mul2(
            self.xy,
            self.xy,
        ) + wide_mul2(self.xw, self.xw) + wide_mul2(self.yw, self.yw) + wide_mul2(
            self.zw,
            self.zw,
        );
        proof {
            lemma_len2_b4_parts(self@);
        }
        isqrt(s as i64)
    }

    /// Scales the bivector to unit length in place; a zero bivector is
    /// left unchanged.
    pub fn normalize(&mut self)
        requires
            okb4(old(self)@),
        ensures
            (final(self)@ == spec_normalized_b4(old(self)@)),
            okb4(final(self)@),
            -ONE <= final(self)@.yz <= ONE,
            -ONE <= final(self)@.xz <= ONE,
            -ONE <= final(self)@.xy <= ONE,
            -ONE <= final(self)@.xw <= ONE,
            -ONE <= final(self)@.yw <= ONE,
            -ONE <= final(self)@.zw <= ONE,
    {
        let l: i64 = self.length();
        if l > 0 {
            proof {
                lemma_normb4_bounds(self@);
            }
            self.yz = sat64(fx_div(self.yz, l), ONE);
            self.xz = sat64(fx_div(self.xz, l), ONE);
            self.xy = sat64(fx_div(self.xy, l), ONE);
            self.xw = sat64(fx_div(self.xw, l), ONE);
            self.yw = sat64(fx_div(self.yw, l), ONE);
            self.zw = sat64(fx_div(self.zw, l), ONE);
        } else {
            proof {
                lemma_len2_b4_zero(self@);
            }
        }
    }

    /// The bivector scaled to unit length; a zero bivector is returned
    /// unchanged.
    pub fn normalized(&self) -> (r: Bivector4)
        requires
            okb4(self@),
        ensures
            (r@ == spec_normalized_b4(self@)),
            okb4(r@),
            -ONE <= r@.yz <= ONE,
            -ONE <= r@.xz <= ONE,
            -ONE <= r@.xy <= ONE,
            -ONE <= r@.xw <= ONE,
            -ONE <= r@.yw <= ONE,
            -ONE <= r@.zw <= ONE,
    {
        let mut r: Bivector4 = *self;
        r.normalize();
        r
    }
}

/// The raw squared length of an in-range bivector splits into nonnegative
/// squares, each at most `VEC_LIM^2`.
proof fn lemma_len2_b4_parts(b: B4)
    requires
        okb4(b),
    ensures
        0 <= b.yz * b.yz <= 0x1000000000000000,
        0 <= b.xz * b.xz <= 0x1000000000000000,
        0 <= b.xy * b.xy <= 0x1000000000000000,
        0 <= b.xw * b.xw <= 0x1000000000000000,
        0 <= b.yw * b.yw <= 0x1000000000000000,
        0 <= b.zw * b.zw <= 0x1000000000000000,
{
    assert(0 <= b.yz * b.yz <= 0x1000000000000000) by (nonlinear_arith)
        requires
            -VEC_LIM <= b.yz <= VEC_LIM,
    ;
    assert(0 <= b.xz * b.xz <= 0x1000000000000000) by (nonlinear_arith)
        requires
            -VEC_LIM <= b.xz <= VEC_LIM,
    ;
    assert(0 <= b.xy * b.xy <= 0x1000000000000000) by (nonlinear_arith)
        requires
            -VEC_LIM <= b.xy <= VEC_LIM,
    ;
    assert(0 <= b.xw * b.xw <= 0x1000000000000000) by (nonlinear_arith)
        requires
            -VEC_LIM <= b.xw <= VEC_LIM,
    ;
    assert(0 <= b.yw * b.yw <= 0x1000000000000000) by (nonlinear_arith)
        requires
            -VEC_LIM <= b.yw <= VEC_LIM,
    ;
    assert(0 <= b.zw * b.zw <= 0x1000000000000000) by (nonlinear_arith)
        requires
            -VEC_LIM <= b.zw <= VEC_LIM,
    ;
}

/// A bivector whose length is zero is the zero bivector.
proof fn lemma_len2_b4_zero(b: B4)
    requires
        sqrtf(len2_b4(b)) == 0,
    ensures
        -ONE <= b.yz <= ONE,
        -ONE <= b.xz <= ONE,
        -ONE <= b.xy <= ONE,
        -ONE <= b.xw <= ONE,
        -ONE <= b.yw <= ONE,
        -ONE <= b.zw <= ONE,
{
    lemma_sqrtf(len2_b4(b));
    assert(b.yz * b.yz >= 0 && b.xz * b.xz >= 0 && b.xy * b.xy >= 0 && b.xw * b.xw >= 0
        && b.yw * b.yw >= 0 && b.zw * b.zw >= 0) by (nonlinear_arith);
    lemma_component_le_sqrt(b.yz, len2_b4(b), 0);
    lemma_component_le_sqrt(b.xz, len2_b4(b), 0);
    lemma_component_le_sqrt(b.xy, len2_b4(b), 0);
    lemma_component_le_sqrt(b.xw, len2_b4(b), 0);
    lemma_component_le_sqrt(b.yw, len2_b4(b), 0);
    lemma_component_le_sqrt(b.zw, len2_b4(b), 0);
}

/// With a positive length, each coefficient divided by the length stays
/// within one unit.
proof fn lemma_normb4_bounds(b: B4)
    requires
        okb4(b),
        sqrtf(len2_b4(b)) >= 1,
    ensures
        -ONE <= tdiv(b.yz * ONE, sqrtf(len2_b4(b))) <= ONE,
        -ONE <= tdiv(b.xz * ONE, sqrtf(len2_b4(b))) <= ONE,
        -ONE <= tdiv(b.xy * ONE, sqrtf(len2_b4(b))) <= ONE,
        -ONE <= tdiv(b.xw * ONE, sqrtf(len2_b4(b))) <= ONE,
        -ONE <= tdiv(b.yw * ONE, sqrtf(len2_b4(b))) <= ONE,
        -ONE <= tdiv(b.zw * ONE, sqrtf(len2_b4(b))) <= ONE,
{
    let n = len2_b4(b);
    let l = sqrtf(n);
    lemma_sqrtf(n);
    lemma_len2_b4_parts(b);
    lemma_component_le_sqrt(b.yz, n, l);
    lemma_component_le_sqrt(b.xz, n, l);
    lemma_component_le_sqrt(b.xy, n, l);
    lemma_component_le_sqrt(b.xw, n, l);
    lemma_component_le_sqrt(b.yw, n, l);
    lemma_component_le_sqrt(b.zw, n, l);
    assert(-(l * ONE) <= b.yz * ONE <= l * ONE && -(l * ONE) <= b.xz * ONE <= l * ONE && -(l
        * ONE) <= b.xy * ONE <= l * ONE && -(l * ONE) <= b.xw * ONE <= l * ONE && -(l * ONE)
        <= b.yw * ONE <= l * ONE && -(l * ONE) <= b.zw * ONE <= l * ONE) by (nonlinear_arith)
        requires
            -l <= b.yz <= l,
            -l <= b.xz <= l,
            -l <= b.xy <= l,
            -l <= b.xw <= l,
            -l <= b.yw <= l,
            -l <= b.zw <= l,
            ONE >= 1,
    ;
    lemma_tdiv_scaled_bound(b.yz * ONE, l, ONE as int);
    lemma_tdiv_scaled_bound(b.xz * ONE, l, ONE as int);
    lemma_tdiv_scaled_bound(b.xy * ONE, l, ONE as int);
    lemma_tdiv_scaled_bound(b.xw * ONE, l, ONE as int);
    lemma_tdiv_scaled_bound(b.yw * ONE, l, ONE as int);
    lemma_tdiv_scaled_bound(b.zw * ONE, l, ONE as int);
}

} // verus!
