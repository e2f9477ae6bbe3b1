//! Three-dimensional rotors in fixed point: unit elements of the even
//! subalgebra that rotate vectors by conjugation.
//!
//! Every operation is pinned to the exact integer model of `algebra3`:
//! products are the raw polynomials there, rescaled by truncating
//! division and saturated at the working range.

use vstd::prelude::*;
use crate::fixed::{
    ONE, VEC_LIM, ROT_LIM, FX_LIM, tdiv, q1, q2, sat, sqrtf, fx_mul, fx_div, isqrt, sat64,
    finish1, finish2, wide_mul2, wide_mul3, lemma_sqrtf, lemma_component_le_sqrt,
    lemma_tdiv_scaled_bound,
};
use crate::trig::{
    PI_FX, ANGLE_LIM, sin_fx, cos_fx, acos_fx, spec_sin, spec_cos, spec_acos,
};
use crate::algebra3::{V3, B3, R3, ident3, dot3, wedge3, len2_r3, rev3, compose3, apply3};
use crate::vec3::{Fix3, ok3, sat_v};
use crate::bivec3::{Bivector3, okb3, spec_normalized_b3};

verus! {

/// Rotors whose angle from one another is below this are treated as equal
/// by `approx_equal` (about a thousandth of a radian).
pub const ANGLE_EPS_FX: i64 = 1049;

/// The threshold under `ONE` past which `slerp` falls back to linear
/// interpolation of the coefficients.
pub const SLERP_EPS_FX: i64 = 1;

/// Largest magnitude of a slerp weight.
pub const WEIGHT_LIM: i64 = 16777216;

/// Whether every component of a model rotor is within the rotor range.
pub open spec fn okr3(r: R3) -> bool {
    &&& -ROT_LIM <= r.a <= ROT_LIM
    &&& -ROT_LIM <= r.yz <= ROT_LIM
    &&& -ROT_LIM <= r.xz <= ROT_LIM
    &&& -ROT_LIM <= r.xy <= ROT_LIM
}

/// Saturation of a rotor component.
pub open spec fn sat_r(a: int) -> int {
    sat(a, ROT_LIM as int)
}

/// The scaled, saturated rotor product.
pub open spec fn spec_compose3(a: R3, b: R3) -> R3 {
    R3 {
        a: sat_r(q1(compose3(a, b).a)),
        yz: sat_r(q1(compose3(a, b).yz)),
        xz: sat_r(q1(compose3(a, b).xz)),
        xy: sat_r(q1(compose3(a, b).xy)),
    }
}

/// The scaled, saturated sandwich product.
pub open spec fn spec_rotate3(r: R3, v: V3) -> V3 {
    V3 {
        x: sat_v(q2(apply3(r, v).x)),
        y: sat_v(q2(apply3(r, v).y)),
        z: sat_v(q2(apply3(r, v).z)),
    }
}

/// The rotor normalization model.
pub open spec fn spec_normalized_r3(r: R3) -> R3 {
    let l = sqrtf(len2_r3(r));
    if l == 0 {
        r
    } else {
        R3 {
            a: tdiv(r.a * ONE, l),
            yz: tdiv(r.yz * ONE, l),
            xz: tdiv(r.xz * ONE, l),
            xy: tdiv(r.xy * ONE, l),
        }
    }
}

/// The rotor built from a plane and an angle: the plane normalized, the
/// scalar part the cosine of the half angle, the bivector part the
/// negated sine of the half angle times the plane, renormalized.
pub open spec fn spec_bivector_angle3(bv: B3, angle: int) -> R3 {
    let n = spec_normalized_b3(bv);
    let c = spec_cos(tdiv(angle, 2));
    let s = spec_sin(tdiv(angle, 2));
    spec_normalized_r3(
        R3 { a: c, yz: -q1(s * n.yz), xz: -q1(s * n.xz), xy: -q1(s * n.xy) },
    )
}

/// The angle of a rotor: twice the arc cosine of its scalar part.
pub open spec fn spec_angle3(r: R3) -> int {
    2 * spec_acos(sat(r.a, ONE as int))
}

/// The rotor taking orientation `a` to orientation `b`.
pub open spec fn spec_from_to3(a: R3, b: R3) -> R3 {
    spec_normalized_r3(spec_compose3(b, rev3(a)))
}

/// The spherical interpolation model: shortest-arc weights from the
/// rotor between the endpoints, a linear fallback when they nearly agree
/// (or when the fixed-point sine of the arc vanishes), and a final
/// renormalization.
pub open spec fn spec_slerp3(from: R3, to: R3, t: int) -> R3 {
    let d = spec_from_to3(from, to);
    let flip = d.a < 0;
    let co = if flip {
        -d.a
    } else {
        d.a
    };
    let om = spec_acos(sat(co, ONE as int));
    let so = spec_sin(om);
    let lin = co > ONE - SLERP_EPS_FX || so == 0;
    let s1 = if lin {
        ONE - t
    } else {
        sat(tdiv(spec_sin(q1((ONE - t) * om)) * ONE, so), WEIGHT_LIM as int)
    };
    let s2p = if lin {
        t
    } else {
        sat(tdiv(spec_sin(q1(t * om)) * ONE, so), WEIGHT_LIM as int)
    };
    let s2 = if flip {
        -s2p
    } else {
        s2p
    };
    spec_normalized_r3(
        R3 {
            a: sat_r(q1(s1 * from.a) + q1(s2 * to.a)),
            yz: sat_r(q1(s1 * from.yz) + q1(s2 * to.yz)),
            xz: sat_r(q1(s1 * from.xz) + q1(s2 * to.xz)),
            xy: sat_r(q1(s1 * from.xy) + q1(s2 * to.xy)),
        },
    )
}

/// A rotor: a scalar part and a bivector part.
#[derive(Clone, Copy, Debug, PartialEq, Eq, Structural)]
pub struct Rotor3 {
    pub a: i64,
    pub bv: Bivector3,
}

impl View for Rotor3 {
    type V = R3;

    open spec fn view(&self) -> R3 {
        R3 {
            a: self.a as int,
            yz: self.bv.yz as int,
            xz: self.bv.xz as int,
            xy: self.bv.xy as int,
        }
    }
}

impl Rotor3 {
    /// Builds the rotor with the given scalar and bivector parts.
    pub fn new(a: i64, bv: Bivector3) -> (r: Rotor3)
        ensures
            (r@ == R3 { a: a as int, yz: bv@.yz, xz: bv@.xz, xy: bv@.xy }),
    {
        Rotor3 { a, bv }
    }

    /// The identity rotor, which rotates nothing.
    pub fn identity() -> (r: Rotor3)
        ensures
            (r@ == ident3(ONE as int)),
            okr3(r@),
    {
        Rotor3 { a: ONE, bv: Bivector3 { yz: 0, xz: 0, xy: 0 } }
    }

    /// The rotor built from a plane and an angle in fixed-point radians.
    /// Composing it with itself doubles the angle; the half-angle inside
    /// gives the double cover.
    pub fn bivector_angle(bv: &Bivector3, angle: i64) -> (r: Rotor3)
        requires
            okb3(bv@),
            -ANGLE_LIM <= angle <= ANGLE_LIM,
        ensures
            (r@ == spec_bivector_angle3(bv@, angle as int)),
            okr3(r@),
    {
        let n: Bivector3 = bv.normalized();
        let half: i64 = angle / 2;
        let c: i64 = cos_fx(half);
        let s: i64 = sin_fx(half);
        proof {
            assert(-(ONE as int) * 0x400000 <= (s as int) * (n@.yz) <= (ONE as int) * 0x400000
                && -(ONE as int) * 0x400000 <= (s as int) * (n@.xz) <= (ONE as int) * 0x400000
                && -(ONE as int) * 0x400000 <= (s as int) * (n@.xy) <= (ONE as int) * 0x400000)
                by (nonlinear_arith)
                requires
                    -4194304 <= s <= 4194304,
                    -ONE <= n@.yz <= ONE,
                    -ONE <= n@.xz <= ONE,
                    -ONE <= n@.xy <= ONE,
            ;
            lemma_tdiv_scaled_bound((s as int) * (n@.yz), ONE as int, 0x400000);
            lemma_tdiv_scaled_bound((s as int) * (n@.xz), ONE as int, 0x400000);
            lemma_tdiv_scaled_bound((s as int) * (n@.xy), ONE as int, 0x400000);
        }
        let r0: Rotor3 = Rotor3 {
            a: c,
            bv: Bivector3 {
                yz: -fx_mul(s, n.yz),
                xz: -fx_mul(s, n.xz),
                xy: -fx_mul(s, n.xy),
            },
        };
        r0.normalized()
    }

    /// Twice the rotation from `v` to `u`: scalar part the dot product,
    /// bivector part the wedge.  The result is generally not unit.
    pub fn geometric_product(u: Fix3, v: Fix3) -> (r: Rotor3)
        requires
            ok3(u@),
            ok3(v@),
        ensures
            (r@ == R3 {
                a: sat_r(q1(dot3(u@, v@))),
                yz: sat_r(q1(wedge3(u@, v@).yz)),
                xz: sat_r(q1(wedge3(u@, v@).xz)),
                xy: sat_r(q1(wedge3(u@, v@).xy)),
            }),
            okr3(r@),
    {
        Rotor3 {
            a: finish1(
                wide_mul2(u.x, v.x) + wide_mul2(u.y, v.y) + wide_mul2(u.z, v.z),
                ROT_LIM,
            ),
            bv: Bivector3 {
                yz: finish1(wide_mul2(u.y, v.z) - wide_mul2(u.z, v.y), ROT_LIM),
                xz: finish1(wide_mul2(u.x, v.z) - wide_mul2(u.z, v.x), ROT_LIM),
                xy: finish1(wide_mul2(u.x, v.y) - wide_mul2(u.y, v.x), ROT_LIM),
            },
        }
    }

    /// The reverse: the bivector part negated.  For a unit rotor this is
    /// the inverse (`algebra3::lemma_compose3_reverse`).
    pub fn reverse(r: &Rotor3) -> (res: Rotor3)
        requires
            okr3(r@),
        ensures
            (res@ == rev3(r@)),
            okr3(res@),
    {
        Rotor3 {
            a: r.a,
            bv: Bivector3 { yz: -r.bv.yz, xz: -r.bv.xz, xy: -r.bv.xy },
        }
    }

    /// Reverses this rotor in place.
    pub fn reverse_me(&mut self)
        requires
            okr3(old(self)@),
        ensures
            (final(self)@ == rev3(old(self)@)),
            okr3(final(self)@),
    {
        self.bv = Bivector3 { yz: -self.bv.yz, xz: -self.bv.xz, xy: -self.bv.xy };
    }

    /// The rotor product: composing `b` onto `a`, so that applying the
    /// result rotates by `b` and then by `a`.
    pub fn rotate_rotor(a: &Rotor3, b: &Rotor3) -> (r: Rotor3)
        requires
            okr3(a@),
            okr3(b@),
        ensures
            (r@ == spec_compose3(a@, b@)),
            okr3(r@),
    {
        let e: i128 = wide_mul2(a.a, b.a) - wide_mul2(a.bv.xy, b.bv.xy) - wide_mul2(
            a.bv.xz,
            b.bv.xz,
        ) - wide_mul2(a.bv.yz, b.bv.yz);
        let exy: i128 = wide_mul2(a.bv.xy, b.a) + wide_mul2(a.a, b.bv.xy) + wide_mul2(
            a.bv.yz,
            b.bv.xz,
        ) - wide_mul2(a.bv.xz, b.bv.yz);
        let exz: i128 = wide_mul2(a.bv.xz, b.a) + wide_mul2(a.a, b.bv.xz) - wide_mul2(
            a.bv.yz,
            b.bv.xy,
        ) + wide_mul2(a.bv.xy, b.bv.yz);
        let eyz: i128 = wide_mul2(a.bv.yz, b.a) + wide_mul2(a.a, b.bv.yz) + wide_mul2(
            a.bv.xz,
            b.bv.xy,
        ) - wide_mul2(a.bv.xy, b.bv.xz);
        Rotor3 {
            a: finish1(e, ROT_LIM),
            bv: Bivector3 {
                yz: finish1(eyz, ROT_LIM),
                xz: finish1(exz, ROT_LIM),
                xy: finish1(exy, ROT_LIM),
            },
        }
    }

    /// Applies the rotor to a vector by the sandwich product, one closed
    /// polynomial per component.  The identity rotor returns the vector
    /// unchanged (`algebra3::lemma_apply3_ident`).
    pub fn rotate_vector(&self, v: Fix3) -> (r: Fix3)
        requires
            okr3(self@),
            ok3(v@),
        ensures
            (r@ == spec_rotate3(self@, v@)),
            ok3(r@),
    {
        let s: i64 = self.a;
        let xy: i64 = self.bv.xy;
        let xz: i64 = self.bv.xz;
        let yz: i64 = self.bv.yz;
        let rx: i128 = -wide_mul3(v.x, xy, xy) - wide_mul3(v.x, xz, xz) + wide_mul3(
            v.x,
            yz,
            yz,
        ) + wide_mul3(v.x, s, s) + 2 * wide_mul3(v.y, xy, s) - 2 * wide_mul3(v.y, xz, yz) + 2
            * wide_mul3(v.z, xy, yz) + 2 * wide_mul3(v.z, xz, s);
        let ry: i128 = -2 * wide_mul3(v.x, xy, s) - 2 * wide_mul3(v.x, xz, yz) - wide_mul3(
            v.y,
            xy,
            xy,
        ) + wide_mul3(v.y, xz, xz) - wide_mul3(v.y, yz, yz) + wide_mul3(v.y, s, s) - 2
            * wide_mul3(v.z, xy, xz) + 2 * wide_mul3(v.z, yz, s);
        let rz: i128 = 2 * wide_mul3(v.x, xy, yz) - 2 * wide_mul3(v.x, xz, s) - 2 * wide_mul3(
            v.y,
            xy,
            xz,
        ) - 2 * wide_mul3(v.y, yz, s) + wide_mul3(v.z, xy, xy) - wide_mul3(v.z, xz, xz)
            - wide_mul3(v.z, yz, yz) + wide_mul3(v.z, s, s);
        Fix3 {
            x: finish2(rx, VEC_LIM),
            y: finish2(ry, VEC_LIM),
            z: finish2(rz, VEC_LIM),
        }
    }

    /// The squared length at scale `ONE`, exact.
    pub fn length_squared(&self) -> (r: i64)
        requires
            okr3(self@),
        ensures
            r as int == q1(len2_r3(self@)),
            0 <= r,
    {
        let s: i128 = wide_mul2(self.a, self.a) + wide_mul2(self.bv.yz, self.bv.yz)
            + wide_mul2(self.bv.xz, self.bv.xz) + wide_mul2(self.bv.xy, self.bv.xy);
        proof {
            lemma_len2_r3_parts(self@);
        }
        let r: i64 = s as i64;
        let d: i64 = r / ONE;
        d
    }

    /// The length at scale `ONE`.
    pub fn length(&self) -> (r: i64)
        requires
            okr3(self@),
        ensures
            r as int == sqrtf(len2_r3(self@)),
            0 <= r <= 3037000499,
    {
        let s: i128 = wide_mul2(self.a, self.a) + wide_mul2(self.bv.yz, self.bv.yz)
            + wide_mul2(self.bv.xz, self.bv.xz) + wide_mul2(self.bv.xy, self.bv.xy);
        proof {
            lemma_len2_r3_parts(self@);
        }
        isqrt(s as i64)
    }

    /// Scales the rotor to unit length in place; a zero rotor is left
    /// unchanged.
    pub fn normalize(&mut self)
        requires
            okr3(old(self)@),
        ensures
            (final(self)@ == spec_normalized_r3(old(self)@)),
            okr3(final(self)@),
    {
        let l: i64 = self.length();
        if l > 0 {
            proof {
                lemma_normr3_bounds(self@);
            }
            self.a = sat64(fx_div(self.a, l), ONE);
            self.bv.yz = sat64(fx_div(self.bv.yz, l), ONE);
            self.bv.xz = sat64(fx_div(self.bv.xz, l), ONE);
            self.bv.xy = sat64(fx_div(self.bv.xy, l), ONE);
        }
    }

    /// The rotor scaled to unit length; a zero rotor is returned
    /// unchanged.
    pub fn normalized(&self) -> (r: Rotor3)
        requires
            okr3(self@),
        ensures
            (r@ == spec_normalized_r3(self@)),
            okr3(r@),
    {
        let mut r: Rotor3 = *self;
        r.normalize();
        r
    }

    /// The angle of the rotor in fixed-point radians, in `[0, 2 pi]`.
    pub fn angle(&self) -> (r: i64)
        requires
            okr3(self@),
        ensures
            r as int == spec_angle3(self@),
            0 <= r <= 2 * PI_FX,
    {
        2 * acos_fx(sat64(self.a, ONE))
    }

    /// The rotor that rotates orientation `a` into orientation `b`.
    pub fn from_to(a: &Rotor3, b: &Rotor3) -> (r: Rotor3)
        requires
            okr3(a@),
            okr3(b@),
        ensures
            (r@ == spec_from_to3(a@, b@)),
            okr3(r@),
    {
        Rotor3::rotate_rotor(b, &Rotor3::reverse(a)).normalized()
    }

    /// Whether the angle between the two orientations is below
    /// `ANGLE_EPS_FX`: a rotor and its negation compare equal, as the
    /// double cover demands.
    pub fn approx_equal(a: &Rotor3, b: &Rotor3) -> (r: bool)
        requires
            okr3(a@),
            okr3(b@),
        ensures
            r == (spec_angle3(spec_from_to3(a@, b@)) < ANGLE_EPS_FX),
    {
        let angle: i64 = Rotor3::from_to(a, b).angle();
        angle < ANGLE_EPS_FX
    }

    /// Spherical interpolation from one rotor to another along the
    /// shortest arc; `t` runs from `0` (at `from`) to `ONE` (at `to`).
    pub fn slerp(from: &Rotor3, to: &Rotor3, t: i64) -> (r: Rotor3)
        requires
            okr3(from@),
            okr3(to@),
            0 <= t <= ONE,
        ensures
            (r@ == spec_slerp3(from@, to@, t as int)),
            okr3(r@),
    {
        let d: Rotor3 = Rotor3::from_to(from, to);
        let mut cos_omega: i64 = d.a;
        let mut flip: bool = false;
        if cos_omega < 0 {
            flip = true;
            cos_omega = -cos_omega;
        }
        let om: i64 = acos_fx(sat64(cos_omega, ONE));
        let so: i64 = sin_fx(om);
        let s1: i64;
        let s2p: i64;
        if cos_omega > ONE - SLERP_EPS_FX || so == 0 {
            s1 = ONE - t;
            s2p = t;
        } else {
            let m1: i64 = fx_mul(ONE - t, om);
            let m2: i64 = fx_mul(t, om);
            proof {
                assert(0 <= ((ONE - t) as int) * (om as int) <= (ONE as int) * (PI_FX as int)
                    && 0 <= (t as int) * (om as int) <= (ONE as int) * (PI_FX as int))
                    by (nonlinear_arith)
                    requires
                        0 <= t <= ONE,
                        0 <= om <= PI_FX,
                ;
                lemma_tdiv_scaled_bound(((ONE - t) as int) * (om as int), ONE as int, PI_FX as int);
                lemma_tdiv_scaled_bound((t as int) * (om as int), ONE as int, PI_FX as int);
            }
            s1 = sat64(fx_div(sin_fx(m1), so), WEIGHT_LIM);
            s2p = sat64(fx_div(sin_fx(m2), so), WEIGHT_LIM);
        }
        let s2: i64 = if flip {
            -s2p
        } else {
            s2p
        };
        let pa1: i64 = fx_mul(s1, from.a);
        let pb1: i64 = fx_mul(s1, from.bv.yz);
        let pc1: i64 = fx_mul(s1, from.bv.xz);
        let pd1: i64 = fx_mul(s1, from.bv.xy);
        let pa2: i64 = fx_mul(s2, to.a);
        let pb2: i64 = fx_mul(s2, to.bv.yz);
        let pc2: i64 = fx_mul(s2, to.bv.xz);
        let pd2: i64 = fx_mul(s2, to.bv.xy);
        proof {
            lemma_weight_products(s1 as int, from@);
            lemma_weight_products(s2 as int, to@);
            lemma_tdiv_scaled_bound((s1 as int) * (from@.a), ONE as int, 0x10000000000);
            lemma_tdiv_scaled_bound((s1 as int) * (from@.yz), ONE as int, 0x10000000000);
            lemma_tdiv_scaled_bound((s1 as int) * (from@.xz), ONE as int, 0x10000000000);
            lemma_tdiv_scaled_bound((s1 as int) * (from@.xy), ONE as int, 0x10000000000);
            lemma_tdiv_scaled_bound((s2 as int) * (to@.a), ONE as int, 0x10000000000);
            lemma_tdiv_scaled_bound((s2 as int) * (to@.yz), ONE as int, 0x10000000000);
            lemma_tdiv_scaled_bound((s2 as int) * (to@.xz), ONE as int, 0x10000000000);
            lemma_tdiv_scaled_bound((s2 as int) * (to@.xy), ONE as int, 0x10000000000);
        }
        let mut out: Rotor3 = Rotor3 {
            a: sat64(pa1 + pa2, ROT_LIM),
            bv: Bivector3 {
                yz: sat64(pb1 + pb2, ROT_LIM),
                xz: sat64(pc1 + pc2, ROT_LIM),
                xy: sat64(pd1 + pd2, ROT_LIM),
            },
        };
        out.normalize();
        out
    }
}

/// A weight times any in-range rotor component is within `ONE * 2^40`.
proof fn lemma_weight_products(s: int, r: R3)
    requires
        -WEIGHT_LIM <= s <= WEIGHT_LIM,
        okr3(r),
    ensures
        -(ONE as int) * 0x10000000000 <= s * r.a <= (ONE as int) * 0x10000000000,
        -(ONE as int) * 0x10000000000 <= s * r.yz <= (ONE as int) * 0x10000000000,
        -(ONE as int) * 0x10000000000 <= s * r.xz <= (ONE as int) * 0x10000000000,
        -(ONE as int) * 0x10000000000 <= s * r.xy <= (ONE as int) * 0x10000000000,
{
    assert(-(ONE as int) * 0x10000000000 <= s * r.a <= (ONE as int) * 0x10000000000
        && -(ONE as int) * 0x10000000000 <= s * r.yz <= (ONE as int) * 0x10000000000
        && -(ONE as int) * 0x10000000000 <= s * r.xz <= (ONE as int) * 0x10000000000
        && -(ONE as int) * 0x10000000000 <= s * r.xy <= (ONE as int) * 0x10000000000)
        by (nonlinear_arith)
        requires
            -WEIGHT_LIM <= s <= WEIGHT_LIM,
            -ROT_LIM <= r.a <= ROT_LIM,
            -ROT_LIM <= r.yz <= ROT_LIM,
            -ROT_LIM <= r.xz <= ROT_LIM,
            -ROT_LIM <= r.xy <= ROT_LIM,
    ;
}

/// The raw squared length of an in-range rotor splits into nonnegative
/// squares, each at most `ROT_LIM^2`.
proof fn lemma_len2_r3_parts(r: R3)
    requires
        okr3(r),
    ensures
        0 <= r.a * r.a <= 0x1000000000000,
        0 <= r.yz * r.yz <= 0x1000000000000,
        0 <= r.xz * r.xz <= 0x1000000000000,
        0 <= r.xy * r.xy <= 0x1000000000000,
{
    assert(0 <= r.a * r.a <= 0x1000000000000) by (nonlinear_arith)
        requires
            -ROT_LIM <= r.a <= ROT_LIM,
    ;
    assert(0 <= r.yz * r.yz <= 0x1000000000000) by (nonlinear_arith)
        requires
            -ROT_LIM <= r.yz <= ROT_LIM,
    ;
    assert(0 <= r.xz * r.xz <= 0x1000000000000) by (nonlinear_arith)
        requires
            -ROT_LIM <= r.xz <= ROT_LIM,
    ;
    assert(0 <= r.xy * r.xy <= 0x1000000000000) by (nonlinear_arith)
        requires
            -ROT_LIM <= r.xy <= ROT_LIM,
    ;
}

/// With a positive length, each component divided by the length stays
/// within one unit.
proof fn lemma_normr3_bounds(r: R3)
    requires
        okr3(r),
        sqrtf(len2_r3(r)) >= 1,
    ensures
        -ONE <= tdiv(r.a * ONE, sqrtf(len2_r3(r))) <= ONE,
        -ONE <= tdiv(r.yz * ONE, sqrtf(len2_r3(r))) <= ONE,
        -ONE <= tdiv(r.xz * ONE, sqrtf(len2_r3(r))) <= ONE,
        -ONE <= tdiv(r.xy * ONE, sqrtf(len2_r3(r))) <= ONE,
{
    let n = len2_r3(r);
    let l = sqrtf(n);
    lemma_sqrtf(n);
    lemma_len2_r3_parts(r);
    lemma_component_le_sqrt(r.a, n, l);
    lemma_component_le_sqrt(r.yz, n, l);
    lemma_component_le_sqrt(r.xz, n, l);
    lemma_component_le_sqrt(r.xy, n, l);
    assert(-(l * ONE) <= r.a * ONE <= l * ONE && -(l * ONE) <= r.yz * ONE <= l * ONE && -(l
        * ONE) <= r.xz * ONE <= l * ONE && -(l * ONE) <= r.xy * ONE <= l * ONE)
        by (nonlinear_arith)
        requires
            -l <= r.a <= l,
            -l <= r.yz <= l,
            -l <= r.xz <= l,
            -l <= r.xy <= l,
            ONE >= 1,
    ;
    lemma_tdiv_scaled_bound(r.a * ONE, l, ONE as int);
    lemma_tdiv_scaled_bound(r.yz * ONE, l, ONE as int);
    lemma_tdiv_scaled_bound(r.xz * ONE, l, ONE as int);
    lemma_tdiv_scaled_bound(r.xy * ONE, l, ONE as int);
}

} // verus!
