//! Four-dimensional vectors in fixed point.

use vstd::prelude::*;
use crate::fixed::{
    ONE, VEC_LIM, FX_LIM, tdiv, q1, sat, sqrtf, fx_mul, fx_div, isqrt, sat64, finish1,
    wide_mul2, lemma_sqrtf, lemma_component_le_sqrt, lemma_tdiv_scaled_bound,
};
use crate::algebra4::{V4, B4, dot4, wedge4, len2_v4};
use crate::bivec4::Bivector4;

verus! {

/// Whether every component of a model vector is within the working range.
pub open spec fn ok4(v: V4) -> bool {
    &&& -VEC_LIM <= v.x <= VEC_LIM
    &&& -VEC_LIM <= v.y <= VEC_LIM
    &&& -VEC_LIM <= v.z <= VEC_LIM
    &&& -VEC_LIM <= v.w <= VEC_LIM
}

/// Saturation of a vector component at the working range.
pub open spec fn sat_v4(a: int) -> int {
    sat(a, VEC_LIM as int)
}

/// The saturating componentwise sum model.
pub open spec fn vadd4(a: V4, b: V4) -> V4 {
    V4 { x: sat_v4(a.x + b.x), y: sat_v4(a.y + b.y), z: sat_v4(a.z + b.z), w: sat_v4(a.w + b.w) }
}

/// The saturating componentwise difference model.
pub open spec fn vsub4(a: V4, b: V4) -> V4 {
    V4 { x: sat_v4(a.x - b.x), y: sat_v4(a.y - b.y), z: sat_v4(a.z - b.z), w: sat_v4(a.w - b.w) }
}

/// The saturating scaling model.
pub open spec fn vscale4(a: V4, k: int) -> V4 {
    V4 {
        x: sat_v4(q1(a.x * k)),
        y: sat_v4(q1(a.y * k)),
        z: sat_v4(q1(a.z * k)),
        w: sat_v4(q1(a.w * k)),
    }
}

/// The normalization model: divide by the fixed-point length, or return
/// the vector unchanged when its length is exactly zero.
pub open spec fn spec_normalized4(v: V4) -> V4 {
    let l = sqrtf(len2_v4(v));
    if l == 0 {
        v
    } else {
        V4 {
            x: tdiv(v.x * ONE, l),
            y: tdiv(v.y * ONE, l),
            z: tdiv(v.z * ONE, l),
            w: tdiv(v.w * ONE, l),
        }
    }
}

/// A vector with four fixed-point components.
#[derive(Clone, Copy, Debug, PartialEq, Eq, Structural)]
pub struct Fix4 {
    pub x: i64,
    pub y: i64,
    pub z: i64,
    pub w: i64,
}

impl View for Fix4 {
    type V = V4;

    open spec fn view(&self) -> V4 {
        V4 { x: self.x as int, y: self.y as int, z: self.z as int, w: self.w as int }
    }
}

impl Fix4 {
    /// Builds the vector with the given components.
    pub fn new(x: i64, y: i64, z: i64, w: i64) -> (r: Fix4)
        ensures
            (r@ == V4 { x: x as int, y: y as int, z: z as int, w: w as int }),
    {
        Fix4 { x, y, z, w }
    }

    /// Componentwise sum, saturated at the working range.
    pub fn add(self, v: Fix4) -> (r: Fix4)
        requires
            ok4(self@),
            ok4(v@),
        ensures
            (r@ == V4 {
                x: sat_v4(self@.x + v@.x),
                y: sat_v4(self@.y + v@.y),
                z: sat_v4(self@.z + v@.z),
                w: sat_v4(self@.w + v@.w),
            }),
            ok4(r@),
    {
        Fix4 {
            x: sat64(self.x + v.x, VEC_LIM),
            y: sat64(self.y + v.y, VEC_LIM),
            z: sat64(self.z + v.z, VEC_LIM),
            w: sat64(self.w + v.w, VEC_LIM),
        }
    }

    /// Componentwise difference, saturated at the working range.
    pub fn sub(self, v: Fix4) -> (r: Fix4)
        requires
            ok4(self@),
            ok4(v@),
        ensures
            (r@ == V4 {
                x: sat_v4(self@.x - v@.x),
                y: sat_v4(self@.y - v@.y),
                z: sat_v4(self@.z - v@.z),
                w: sat_v4(self@.w - v@.w),
            }),
            ok4(r@),
    {
        Fix4 {
            x: sat64(self.x - v.x, VEC_LIM),
            y: sat64(self.y - v.y, VEC_LIM),
            z: sat64(self.z - v.z, VEC_LIM),
            w: sat64(self.w - v.w, VEC_LIM),
        }
    }

    /// Componentwise negation.
    pub fn neg(self) -> (r: Fix4)
        requires
            ok4(self@),
        ensures
            (r@ == V4 { x: -self@.x, y: -self@.y, z: -self@.z, w: -self@.w }),
            ok4(r@),
    {
        Fix4 { x: -self.x, y: -self.y, z: -self.z, w: -self.w }
    }

    /// The vector scaled by a fixed-point scalar, saturated.
    pub fn scale(self, k: i64) -> (r: Fix4)
        requires
            ok4(self@),
            -FX_LIM <= k <= FX_LIM,
        ensures
            (r@ == V4 {
                x: sat_v4(q1(self@.x * k)),
                y: sat_v4(q1(self@.y * k)),
                z: sat_v4(q1(self@.z * k)),
                w: sat_v4(q1(self@.w * k)),
            }),
            ok4(r@),
    {
        Fix4 {
            x: sat64(fx_mul(self.x, k), VEC_LIM),
            y: sat64(fx_mul(self.y, k), VEC_LIM),
            z: sat64(fx_mul(self.z, k), VEC_LIM),
            w: sat64(fx_mul(self.w, k), VEC_LIM),
        }
    }

    /// The vector divided by a nonzero fixed-point scalar, saturated.
    pub fn scale_div(self, k: i64) -> (r: Fix4)
        requires
            ok4(self@),
            k != 0,
        ensures
            (r@ == V4 {
                x: sat_v4(tdiv(self@.x * ONE, k as int)),
                y: sat_v4(tdiv(self@.y * ONE, k as int)),
                z: sat_v4(tdiv(self@.z * ONE, k as int)),
                w: sat_v4(tdiv(self@.w * ONE, k as int)),
            }),
            ok4(r@),
    {
        Fix4 {
            x: sat64(fx_div(self.x, k), VEC_LIM),
            y: sat64(fx_div(self.y, k), VEC_LIM),
            z: sat64(fx_div(self.z, k), VEC_LIM),
            w: sat64(fx_div(self.w, k), VEC_LIM),
        }
    }

    /// The dot product of two vectors, at scale `ONE`.
    pub fn dot(u: Fix4, v: Fix4) -> (r: i64)
        requires
            ok4(u@),
            ok4(v@),
        ensures
            r as int == sat(q1(dot4(u@, v@)), FX_LIM as int),
    {
        let s: i128 = wide_mul2(u.x, v.x) + wide_mul2(u.y, v.y) + wide_mul2(u.z, v.z)
            + wide_mul2(u.w, v.w);
        finish1(s, FX_LIM)
    }

    /// The wedge product of two vectors: the oriented plane they span,
    /// each coefficient saturated.  Antisymmetry is proved of the model in
    /// `algebra3::lemma_wedge4_antisymmetric` and carries to these
    /// saturated components, since both the rescaling and the saturation
    /// are odd.
    pub fn wedge(u: Fix4, v: Fix4) -> (r: Bivector4)
        requires
            ok4(u@),
            ok4(v@),
        ensures
            (r@ == B4 {
                yz: sat_v4(q1(wedge4(u@, v@).yz)),
                xz: sat_v4(q1(wedge4(u@, v@).xz)),
                xy: sat_v4(q1(wedge4(u@, v@).xy)),
                xw: sat_v4(q1(wedge4(u@, v@).xw)),
                yw: sat_v4(q1(wedge4(u@, v@).yw)),
                zw: sat_v4(q1(wedge4(u@, v@).zw)),
            }),
    {
        Bivector4 {
            yz: finish1(wide_mul2(u.y, v.z) - wide_mul2(u.z, v.y), VEC_LIM),
            xz: finish1(wide_mul2(u.x, v.z) - wide_mul2(u.z, v.x), VEC_LIM),
            xy: finish1(wide_mul2(u.x, v.y) - wide_mul2(u.y, v.x), VEC_LIM),
            xw: finish1(wide_mul2(u.x, v.w) - wide_mul2(u.w, v.x), VEC_LIM),
            yw: finish1(wide_mul2(u.y, v.w) - wide_mul2(u.w, v.y), VEC_LIM),
            zw: finish1(wide_mul2(u.z, v.w) - wide_mul2(u.w, v.z), VEC_LIM),
        }
    }

    /// The squared length at scale `ONE`, exact.
    pub fn length_squared(&self) -> (r: i64)
        requires
            ok4(self@),
        ensures
            r as int == q1(len2_v4(self@)),
            0 <= r,
    {
        let s: i128 = wide_mul2(self.x, self.x) + wide_mul2(self.y, self.y) + wide_mul2(
            self.z,
            self.z,
        ) + wide_mul2(self.w, self.w);
        proof {
            lemma_len2_v4_parts(self@);
        }
        let r: i64 = s as i64;
        let d: i64 = r / ONE;
        d
    }

    /// The length at scale `ONE`: the integer square root of the raw sum
    /// of squared components.
    pub fn length(&self) -> (r: i64)
        requires
            ok4(self@),
        ensures
            r as int == sqrtf(len2_v4(self@)),
            0 <= r <= 3037000499,
    {
        let s: i128 = wide_mul2(self.x, self.x) + wide_mul2(self.y, self.y) + wide_mul2(
            self.z,
            self.z,
        ) + wide_mul2(self.w, self.w);
        proof {
            lemma_len2_v4_parts(self@);
        }
        isqrt(s as i64)
    }

    /// Scales the vector to unit length in place; a zero vector is left
    /// unchanged.
    pub fn normalize(&mut self)
        requires
            ok4(old(self)@),
        ensures
            (final(self)@ == spec_normalized4(old(self)@)),
            ok4(final(self)@),
    {
        let l: i64 = self.length();
        if l > 0 {
            proof {
                lemma_norm4_bounds(self@);
            }
            self.x = sat64(fx_div(self.x, l), VEC_LIM);
            self.y = sat64(fx_div(self.y, l), VEC_LIM);
            self.z = sat64(fx_div(self.z, l), VEC_LIM);
            self.w = sat64(fx_div(self.w, l), VEC_LIM);
        }
    }

    /// The vector scaled to unit length; a zero vector is returned
    /// unchanged.
    pub fn normalized(&self) -> (r: Fix4)
        requires
            ok4(self@),
        ensures
            (r@ == spec_normalized4(self@)),
            ok4(r@),
    {
        let mut r: Fix4 = *self;
        r.normalize();
        r
    }
}

/// The raw squared length of an in-range vector splits into nonnegative
/// squares, each at most `VEC_LIM^2`.
proof fn lemma_len2_v4_parts(v: V4)
    requires
        ok4(v),
    ensures
        0 <= v.x * v.x <= 0x1000000000000000,
        0 <= v.y * v.y <= 0x1000000000000000,
        0 <= v.z * v.z <= 0x1000000000000000,
        0 <= v.w * v.w <= 0x1000000000000000,
{
    assert(0 <= v.x * v.x <= 0x1000000000000000) by (nonlinear_arith)
        requires
            -VEC_LIM <= v.x <= VEC_LIM,
    ;
    assert(0 <= v.y * v.y <= 0x1000000000000000) by (nonlinear_arith)
        requires
            -VEC_LIM <= v.y <= VEC_LIM,
    ;
    assert(0 <= v.z * v.z <= 0x1000000000000000) by (nonlinear_arith)
        requires
            -VEC_LIM <= v.z <= VEC_LIM,
    ;
    assert(0 <= v.w * v.w <= 0x1000000000000000) by (nonlinear_arith)
        requires
            -VEC_LIM <= v.w <= VEC_LIM,
    ;
}

/// With a positive length, each component divided by the length stays
/// within one unit, so the normalized vector needs no saturation.
proof fn lemma_norm4_bounds(v: V4)
    requires
        ok4(v),
        sqrtf(len2_v4(v)) >= 1,
    ensures
        -ONE <= tdiv(v.x * ONE, sqrtf(len2_v4(v))) <= ONE,
        -ONE <= tdiv(v.y * ONE, sqrtf(len2_v4(v))) <= ONE,
        -ONE <= tdiv(v.z * ONE, sqrtf(len2_v4(v))) <= ONE,
        -ONE <= tdiv(v.w * ONE, sqrtf(len2_v4(v))) <= ONE,
        (spec_normalized4(v) == V4 {
            x: tdiv(v.x * ONE, sqrtf(len2_v4(v))),
            y: tdiv(v.y * ONE, sqrtf(len2_v4(v))),
            z: tdiv(v.z * ONE, sqrtf(len2_v4(v))),
            w: tdiv(v.w * ONE, sqrtf(len2_v4(v))),
        }),
{
    let n = len2_v4(v);
    let l = sqrtf(n);
    lemma_sqrtf(n);
    lemma_len2_v4_parts(v);
    lemma_component_le_sqrt(v.x, n, l);
    lemma_component_le_sqrt(v.y, n, l);
    lemma_component_le_sqrt(v.z, n, l);
    lemma_component_le_sqrt(v.w, n, l);
    assert(-(l * ONE) <= v.x * ONE <= l * ONE) by (nonlinear_arith)
        requires
            -l <= v.x <= l,
            ONE >= 1,
    ;
    assert(-(l * ONE) <= v.y * ONE <= l * ONE) by (nonlinear_arith)
        requires
            -l <= v.y <= l,
            ONE >= 1,
    ;
    assert(-(l * ONE) <= v.z * ONE <= l * ONE) by (nonlinear_arith)
        requires
            -l <= v.z <= l,
            ONE >= 1,
    ;
    assert(-(l * ONE) <= v.w * ONE <= l * ONE) by (nonlinear_arith)
        requires
            -l <= v.w <= l,
            ONE >= 1,
    ;
    assert(l * (ONE as int) == (ONE as int) * l) by (nonlinear_arith);
    lemma_tdiv_scaled_bound(v.x * ONE, l, ONE as int);
    lemma_tdiv_scaled_bound(v.y * ONE, l, ONE as int);
    lemma_tdiv_scaled_bound(v.z * ONE, l, ONE as int);
    lemma_tdiv_scaled_bound(v.w * ONE, l, ONE as int);
}

} // verus!
