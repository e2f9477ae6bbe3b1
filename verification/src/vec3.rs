//! Three-dimensional vectors in fixed point.

use vstd::prelude::*;
use crate::fixed::{
    ONE, VEC_LIM, FX_LIM, tdiv, q1, sat, sqrtf, fx_mul, fx_div, isqrt, sat64, finish1,
    wide_mul2, lemma_sqrtf, lemma_component_le_sqrt, lemma_tdiv_scaled_bound,
};
use crate::algebra3::{V3, B3, dot3, wedge3, len2_v3};
use crate::bivec3::Bivector3;

verus! {

/// Whether every component of a model vector is within the working range.
pub open spec fn ok3(v: V3) -> bool {
    &&& -VEC_LIM <= v.x <= VEC_LIM
    &&& -VEC_LIM <= v.y <= VEC_LIM
    &&& -VEC_LIM <= v.z <= VEC_LIM
}

/// Saturation of a vector component at the working range.
pub open spec fn sat_v(a: int) -> int {
    sat(a, VEC_LIM as int)
}

/// The saturating componentwise sum model.
pub open spec fn vadd3(a: V3, b: V3) -> V3 {
    V3 { x: sat_v(a.x + b.x), y: sat_v(a.y + b.y), z: sat_v(a.z + b.z) }
}

/// The saturating componentwise difference model.
pub open spec fn vsub3(a: V3, b: V3) -> V3 {
    V3 { x: sat_v(a.x - b.x), y: sat_v(a.y - b.y), z: sat_v(a.z - b.z) }
}

/// The saturating scaling model.
pub open spec fn vscale3(a: V3, k: int) -> V3 {
    V3 { x: sat_v(q1(a.x * k)), y: sat_v(q1(a.y * k)), z: sat_v(q1(a.z * k)) }
}

/// The normalization model: divide by the fixed-point length, or return
/// the vector unchanged when its length is exactly zero.
pub open spec fn spec_normalized3(v: V3) -> V3 {
    let l = sqrtf(len2_v3(v));
    if l == 0 {
        v
    } else {
        V3 { x: tdiv(v.x * ONE, l), y: tdiv(v.y * ONE, l), z: tdiv(v.z * ONE, l) }
    }
}

/// A vector with three fixed-point components.
#[derive(Clone, Copy, Debug, PartialEq, Eq, Structural)]
pub struct Fix3 {
    pub x: i64,
    pub y: i64,
    pub z: i64,
}

impl View for Fix3 {
    type V = V3;

    open spec fn view(&self) -> V3 {
        V3 { x: self.x as int, y: self.y as int, z: self.z as int }
    }
}

impl Fix3 {
    /// Builds the vector with the given components.
    pub fn new(x: i64, y: i64, z: i64) -> (r: Fix3)
        ensures
            (r@ == V3 { x: x as int, y: y as int, z: z as int }),
    {
        Fix3 { x, y, z }
    }

    /// Componentwise sum, saturated at the working range.
    pub fn add(self, v: Fix3) -> (r: Fix3)
        requires
            ok3(self@),
            ok3(v@),
        ensures
            (r@ == V3 {
                x: sat_v(self@.x + v@.x),
                y: sat_v(self@.y + v@.y),
                z: sat_v(self@.z + v@.z),
            }),
            ok3(r@),
    {
        Fix3 {
            x: sat64(self.x + v.x, VEC_LIM),
            y: sat64(self.y + v.y, VEC_LIM),
            z: sat64(self.z + v.z, VEC_LIM),
        }
    }

    /// Componentwise difference, saturated at the working range.
    pub fn sub(self, v: Fix3) -> (r: Fix3)
        requires
            ok3(self@),
            ok3(v@),
        ensures
            (r@ == V3 {
                x: sat_v(self@.x - v@.x),
                y: sat_v(self@.y - v@.y),
                z: sat_v(self@.z - v@.z),
            }),
            ok3(r@),
    {
        Fix3 {
            x: sat64(self.x - v.x, VEC_LIM),
            y: sat64(self.y - v.y, VEC_LIM),
            z: sat64(self.z - v.z, VEC_LIM),
        }
    }

    /// Componentwise negation.
    pub fn neg(self) -> (r: Fix3)
        requires
            ok3(self@),
        ensures
            (r@ == V3 { x: -self@.x, y: -self@.y, z: -self@.z }),
            ok3(r@),
    {
        Fix3 { x: -self.x, y: -self.y, z: -self.z }
    }

    /// The vector scaled by a fixed-point scalar, saturated.
    pub fn scale(self, k: i64) -> (r: Fix3)
        requires
            ok3(self@),
            -FX_LIM <= k <= FX_LIM,
        ensures
            (r@ == V3 {
                x: sat_v(q1(self@.x * k)),
                y: sat_v(q1(self@.y * k)),
                z: sat_v(q1(self@.z * k)),
            }),
            ok3(r@),
    {
        Fix3 {
            x: sat64(fx_mul(self.x, k), VEC_LIM),
            y: sat64(fx_mul(self.y, k), VEC_LIM),
            z: sat64(fx_mul(self.z, k), VEC_LIM),
        }
    }

    /// The vector divided by a nonzero fixed-point scalar, saturated.
    pub fn scale_div(self, k: i64) -> (r: Fix3)
        requires
            ok3(self@),
            k != 0,
        ensures
            (r@ == V3 {
                x: sat_v(tdiv(self@.x * ONE, k as int)),
                y: sat_v(tdiv(self@.y * ONE, k as int)),
                z: sat_v(tdiv(self@.z * ONE, k as int)),
            }),
            ok3(r@),
    {
        Fix3 {
            x: sat64(fx_div(self.x, k), VEC_LIM),
            y: sat64(fx_div(self.y, k), VEC_LIM),
            z: sat64(fx_div(self.z, k), VEC_LIM),
        }
    }

    /// The dot product of two vectors, at scale `ONE`.
    pub fn dot(u: Fix3, v: Fix3) -> (r: i64)
        requires
            ok3(u@),
            ok3(v@),
        ensures
            r as int == sat(q1(dot3(u@, v@)), FX_LIM as int),
    {
        let s: i128 = wide_mul2(u.x, v.x) + wide_mul2(u.y, v.y) + wide_mul2(u.z, v.z);
        finish1(s, FX_LIM)
    }

    /// The cross product, each component saturated.
    pub fn cross(u: Fix3, v: Fix3) -> (r: Fix3)
        requires
            ok3(u@),
            ok3(v@),
        ensures
            (r@ == V3 {
                x: sat_v(q1(u@.y * v@.z - u@.z * v@.y)),
                y: sat_v(q1(u@.z * v@.x - u@.x * v@.z)),
                z: sat_v(q1(u@.x * v@.y - u@.y * v@.x)),
            }),
            ok3(r@),
    {
        Fix3 {
            x: finish1(wide_mul2(u.y, v.z) - wide_mul2(u.z, v.y), VEC_LIM),
            y: finish1(wide_mul2(u.z, v.x) - wide_mul2(u.x, v.z), VEC_LIM),
            z: finish1(wide_mul2(u.x, v.y) - wide_mul2(u.y, v.x), VEC_LIM),
        }
    }

    /// The wedge product of two vectors: the oriented plane they span,
    /// each coefficient saturated.  Antisymmetry is proved of the model in
    /// `algebra3::lemma_wedge3_antisymmetric` and carries to these
    /// saturated components, since both the rescaling and the saturation
    /// are odd.
    pub fn wedge(u: Fix3, v: Fix3) -> (r: Bivector3)
        requires
            ok3(u@),
            ok3(v@),
        ensures
            (r@ == B3 {
                yz: sat_v(q1(wedge3(u@, v@).yz)),
                xz: sat_v(q1(wedge3(u@, v@).xz)),
                xy: sat_v(q1(wedge3(u@, v@).xy)),
            }),
    {
        Bivector3 {
            yz: finish1(wide_mul2(u.y, v.z) - wide_mul2(u.z, v.y), VEC_LIM),
            xz: finish1(wide_mul2(u.x, v.z) - wide_mul2(u.z, v.x), VEC_LIM),
            xy: finish1(wide_mul2(u.x, v.y) - wide_mul2(u.y, v.x), VEC_LIM),
        }
    }

    /// The squared length at scale `ONE`, exact.
    pub fn length_squared(&self) -> (r: i64)
        requires
            ok3(self@),
        ensures
            r as int == q1(len2_v3(self@)),
            0 <= r,
    {
        let s: i128 = wide_mul2(self.x, self.x) + wide_mul2(self.y, self.y) + wide_mul2(
            self.z,
            self.z,
        );
        proof {
            lemma_len2_v3_parts(self@);
        }
        let r: i64 = s as i64;
        let d: i64 = r / ONE;
        d
    }

    /// The length at scale `ONE`: the integer square root of the raw sum
    /// of squared components.
    pub fn length(&self) -> (r: i64)
        requires
            ok3(self@),
        ensures
            r as int == sqrtf(len2_v3(self@)),
            0 <= r <= 3037000499,
    {
        let s: i128 = wide_mul2(self.x, self.x) + wide_mul2(self.y, self.y) + wide_mul2(
            self.z,
            self.z,
        );
        proof {
            lemma_len2_v3_parts(self@);
        }
        isqrt(s as i64)
    }

    /// Scales the vector to unit length in place; a zero vector is left
    /// unchanged.
    pub fn normalize(&mut self)
        requires
            ok3(old(self)@),
        ensures
            (final(self)@ == spec_normalized3(old(self)@)),
            ok3(final(self)@),
    {
        let l: i64 = self.length();
        if l > 0 {
            proof {
                lemma_norm3_bounds(self@);
            }
            self.x = sat64(fx_div(self.x, l), VEC_LIM);
            self.y = sat64(fx_div(self.y, l), VEC_LIM);
            self.z = sat64(fx_div(self.z, l), VEC_LIM);
        }
    }

    /// The vector scaled to unit length; a zero vector is returned
    /// unchanged.
    pub fn normalized(&self) -> (r: Fix3)
        requires
            ok3(self@),
        ensures
            (r@ == spec_normalized3(self@)),
            ok3(r@),
    {
        let mut r: Fix3 = *self;
        r.normalize();
        r
    }
}

/// The raw squared length of an in-range vector splits into nonnegative
/// squares, each at most `VEC_LIM^2`.
proof fn lemma_len2_v3_parts(v: V3)
    requires
        ok3(v),
    ensures
        0 <= v.x * v.x <= 0x1000000000000000,
        0 <= v.y * v.y <= 0x1000000000000000,
        0 <= v.z * v.z <= 0x1000000000000000,
{
    assert(0 <= v.x * v.x <= 0x1000000000000000) by (nonlinear_arith)
        requires
            -VEC_LIM <= v.x <= VEC_LIM,
    ;
    assert(0 <= v.y * v.y <= 0x1000000000000000) by (nonlinear_arith)
        requires
            -VEC_LIM <= v.y <= VEC_LIM,
    ;
    assert(0 <= v.z * v.z <= 0x1000000000000000) by (nonlinear_arith)
        requires
            -VEC_LIM <= v.z <= VEC_LIM,
    ;
}

/// With a positive length, each component divided by the length stays
/// within one unit, so the normalized vector needs no saturation.
proof fn lemma_norm3_bounds(v: V3)
    requires
        ok3(v),
        sqrtf(len2_v3(v)) >= 1,
    ensures
        -ONE <= tdiv(v.x * ONE, sqrtf(len2_v3(v))) <= ONE,
        -ONE <= tdiv(v.y * ONE, sqrtf(len2_v3(v))) <= ONE,
        -ONE <= tdiv(v.z * ONE, sqrtf(len2_v3(v))) <= ONE,
        (spec_normalized3(v) == V3 {
            x: tdiv(v.x * ONE, sqrtf(len2_v3(v))),
            y: tdiv(v.y * ONE, sqrtf(len2_v3(v))),
            z: tdiv(v.z * ONE, sqrtf(len2_v3(v))),
        }),
{
    let n = len2_v3(v);
    let l = sqrtf(n);
    lemma_sqrtf(n);
    lemma_len2_v3_parts(v);
    lemma_component_le_sqrt(v.x, n, l);
    lemma_component_le_sqrt(v.y, n, l);
    lemma_component_le_sqrt(v.z, n, l);
    assert(-(l * ONE) <= v.x * ONE <= l * ONE) by (nonlinear_arith)
        requires
            -l <= v.x <= l,
            ONE >= 1,
    ;
    assert(-(l * ONE) <= v.y * ONE <= l * ONE) by (nonlinear_arith)
        requires
            -l <= v.y <= l,
            ONE >= 1,
    ;
    assert(-(l * ONE) <= v.z * ONE <= l * ONE) by (nonlinear_arith)
        requires
            -l <= v.z <= l,
            ONE >= 1,
    ;
    assert(l * (ONE as int) == (ONE as int) * l) by (nonlinear_arith);
    lemma_tdiv_scaled_bound(v.x * ONE, l, ONE as int);
    lemma_tdiv_scaled_bound(v.y * ONE, l, ONE as int);
    lemma_tdiv_scaled_bound(v.z * ONE, l, ONE as int);
}

} // verus!
