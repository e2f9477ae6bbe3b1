//! Four-dimensional rotors in fixed point: a scalar part, a bivector
//! part on six planes, and a quadvector (pseudoscalar) part.
//!
//! Every operation is pinned to the exact integer model of `algebra4`.
//! The quadvector part enters the angle and the interpolation through
//! the combined scalar magnitude `sqrt(a^2 + p^2)`.

use vstd::prelude::*;
use crate::fixed::{
    ONE, VEC_LIM, ROT_LIM, FX_LIM, tdiv, q1, q2, sat, sqrtf, fx_mul, fx_div, isqrt, sat64,
    finish1, finish2, wide_mul2, wide_mul3, lemma_sqrtf, lemma_component_le_sqrt,
    lemma_tdiv_scaled_bound,
};
use crate::trig::{
    PI_FX, ANGLE_LIM, sin_fx, cos_fx, acos_fx, spec_sin, spec_cos, spec_acos,
};
use crate::algebra4::{V4, B4, R4, ident4, dot4, wedge4, len2_r4, rev4, compose4, apply4};
use crate::vec4::{Fix4, ok4, sat_v4};
use crate::bivec4::{Bivector4, okb4, spec_normalized_b4};
use crate::rotor3::{ANGLE_EPS_FX, SLERP_EPS_FX, WEIGHT_LIM};

verus! {

/// Whether every component of a model rotor is within the rotor range.
pub open spec fn okr4(r: R4) -> bool {
    &&& -ROT_LIM <= r.a <= ROT_LIM
    &&& -ROT_LIM <= r.yz <= ROT_LIM
    &&& -ROT_LIM <= r.xz <= ROT_LIM
    &&& -ROT_LIM <= r.xy <= ROT_LIM
    &&& -ROT_LIM <= r.xw <= ROT_LIM
    &&& -ROT_LIM <= r.yw <= ROT_LIM
    &&& -ROT_LIM <= r.zw <= ROT_LIM
    &&& -ROT_LIM <= r.p <= ROT_LIM
}

/// Saturation of a rotor component.
pub open spec fn sat_r4(a: int) -> int {
    sat(a, ROT_LIM as int)
}

/// The scaled, saturated rotor product.
pub open spec fn spec_compose4(a: R4, b: R4) -> R4 {
    R4 {
        a: sat_r4(q1(compose4(a, b).a)),
        yz: sat_r4(q1(compose4(a, b).yz)),
        xz: sat_r4(q1(compose4(a, b).xz)),
        xy: sat_r4(q1(compose4(a, b).xy)),
        xw: sat_r4(q1(compose4(a, b).xw)),
        yw: sat_r4(q1(compose4(a, b).yw)),
        zw: sat_r4(q1(compose4(a, b).zw)),
        p: sat_r4(q1(compose4(a, b).p)),
    }
}

/// The scaled, saturated sandwich product.
pub open spec fn spec_rotate4(r: R4, v: V4) -> V4 {
    V4 {
        x: sat_v4(q2(apply4(r, v).x)),
        y: sat_v4(q2(apply4(r, v).y)),
        z: sat_v4(q2(apply4(r, v).z)),
        w: sat_v4(q2(apply4(r, v).w)),
    }
}

/// The rotor normalization model.
pub open spec fn spec_normalized_r4(r: R4) -> R4 {
    let l = sqrtf(len2_r4(r));
    if l == 0 {
        r
    } else {
        R4 {
            a: tdiv(r.a * ONE, l),
            yz: tdiv(r.yz * ONE, l),
            xz: tdiv(r.xz * ONE, l),
            xy: tdiv(r.xy * ONE, l),
            xw: tdiv(r.xw * ONE, l),
            yw: tdiv(r.yw * ONE, l),
            zw: tdiv(r.zw * ONE, l),
            p: tdiv(r.p * ONE, l),
        }
    }
}

/// The rotor built from a plane and an angle: the plane normalized, the
/// scalar part the cosine of the half angle, the bivector part the
/// negated sine of the half angle times the plane, no quadvector part,
/// renormalized.
pub open spec fn spec_bivector_angle4(bv: B4, angle: int) -> R4 {
    let n = spec_normalized_b4(bv);
    let c = spec_cos(tdiv(angle, 2));
    let s = spec_sin(tdiv(angle, 2));
    spec_normalized_r4(
        R4 {
            a: c,
            yz: -q1(s * n.yz),
            xz: -q1(s * n.xz),
            xy: -q1(s * n.xy),
            xw: -q1(s * n.xw),
            yw: -q1(s * n.yw),
            zw: -q1(s * n.zw),
            p: 0,
        },
    )
}

/// The combined scalar magnitude of a rotor: the square root of the
/// scalar and quadvector parts' sum of squares.
pub open spec fn spec_scalar_mag4(r: R4) -> int {
    sqrtf(r.a * r.a + r.p * r.p)
}

/// The angle of a rotor: twice the arc cosine of its combined scalar
/// magnitude.
pub open spec fn spec_angle4(r: R4) -> int {
    2 * spec_acos(sat(spec_scalar_mag4(r), ONE as int))
}

/// The rotor taking orientation `a` to orientation `b`.
pub open spec fn spec_from_to4(a: R4, b: R4) -> R4 {
    spec_normalized_r4(spec_compose4(b, rev4(a)))
}

/// The spherical interpolation model, as in three dimensions but with
/// the arc read off the combined scalar magnitude.
pub open spec fn spec_slerp4(from: R4, to: R4, t: int) -> R4 {
    let d = spec_from_to4(from, to);
    let co0 = spec_scalar_mag4(d);
    let flip = co0 < 0;
    let co = if flip {
        -co0
    } else {
        co0
    };
    let om = spec_acos(sat(co, ONE as int));
    let so = spec_sin(om);
    let lin = co > ONE - SLERP_EPS_FX || so == 0;
    let s1 = if lin {
        ONE - t
    } else {
        sat(tdiv(spec_sin(q1((ONE - t) * om)) * ONE, so), WEIGHT_LIM as int)
    };
    let s2p = if lin {
        t
    } else {
        sat(tdiv(spec_sin(q1(t * om)) * ONE, so), WEIGHT_LIM as int)
    };
    let s2 = if flip {
        -s2p
    } else {
        s2p
    };
    spec_normalized_r4(
        R4 {
            a: sat_r4(q1(s1 * from.a) + q1(s2 * to.a)),
            yz: sat_r4(q1(s1 * from.yz) + q1(s2 * to.yz)),
            xz: sat_r4(q1(s1 * from.xz) + q1(s2 * to.xz)),
            xy: sat_r4(q1(s1 * from.xy) + q1(s2 * to.xy)),
            xw: sat_r4(q1(s1 * from.xw) + q1(s2 * to.xw)),
            yw: sat_r4(q1(s1 * from.yw) + q1(s2 * to.yw)),
            zw: sat_r4(q1(s1 * from.zw) + q1(s2 * to.zw)),
            p: sat_r4(q1(s1 * from.p) + q1(s2 * to.p)),
        },
    )
}

/// A rotor: a scalar part, a bivector part and a quadvector part.
#[derive(Clone, Copy, Debug, PartialEq, Eq, Structural)]
pub struct Rotor4 {
    pub a: i64,
    pub bv: Bivector4,
    pub p: i64,
}

impl View for Rotor4 {
    type V = R4;

    open spec fn view(&self) -> R4 {
        R4 {
            a: self.a as int,
            yz: self.bv.yz as int,
            xz: self.bv.xz as int,
            xy: self.bv.xy as int,
            xw: self.bv.xw as int,
            yw: self.bv.yw as int,
            zw: self.bv.zw as int,
            p: self.p as int,
        }
    }
}

impl Rotor4 {
    /// Builds the rotor with the given scalar, bivector and quadvector
    /// parts.
    pub fn new(a: i64, bv: Bivector4, p: i64) -> (r: Rotor4)
        ensures
            (r@ == R4 {
                a: a as int,
                yz: bv@.yz,
                xz: bv@.xz,
                xy: bv@.xy,
                xw: bv@.xw,
                yw: bv@.yw,
                zw: bv@.zw,
                p: p as int,
            }),
    {
        Rotor4 { a, bv, p }
    }

    /// The identity rotor, which rotates nothing.
    pub fn identity() -> (r: Rotor4)
        ensures
            (r@ == ident4(ONE as int)),
            okr4(r@),
    {
        Rotor4 { a: ONE, bv: Bivector4 { yz: 0, xz: 0, xy: 0, xw: 0, yw: 0, zw: 0 }, p: 0 }
    }

    /// The rotor built from a plane and an angle in fixed-point radians.
    pub fn bivector_angle(bv: &Bivector4, angle: i64) -> (r: Rotor4)
        requires
            okb4(bv@),
            -ANGLE_LIM <= angle <= ANGLE_LIM,
        ensures
            (r@ == spec_bivector_angle4(bv@, angle as int)),
            okr4(r@),
    {
        let n: Bivector4 = bv.normalized();
        let half: i64 = angle / 2;
        let c: i64 = cos_fx(half);
        let s: i64 = sin_fx(half);
        proof {
            assert(-(ONE as int) * 0x400000 <= (s as int) * (n@.yz) <= (ONE as int) * 0x400000
                && -(ONE as int) * 0x400000 <= (s as int) * (n@.xz) <= (ONE as int) * 0x400000
                && -(ONE as int) * 0x400000 <= (s as int) * (n@.xy) <= (ONE as int) * 0x400000
                && -(ONE as int) * 0x400000 <= (s as int) * (n@.xw) <= (ONE as int) * 0x400000
                && -(ONE as int) * 0x400000 <= (s as int) * (n@.yw) <= (ONE as int) * 0x400000
                && -(ONE as int) * 0x400000 <= (s as int) * (n@.zw) <= (ONE as int) * 0x400000)
                by (nonlinear_arith)
                requires
                    -4194304 <= s <= 4194304,
                    -ONE <= n@.yz <= ONE,
                    -ONE <= n@.xz <= ONE,
                    -ONE <= n@.xy <= ONE,
                    -ONE <= n@.xw <= ONE,
                    -ONE <= n@.yw <= ONE,
                    -ONE <= n@.zw <= ONE,
            ;
            lemma_tdiv_scaled_bound((s as int) * (n@.yz), ONE as int, 0x400000);
            lemma_tdiv_scaled_bound((s as int) * (n@.xz), ONE as int, 0x400000);
            lemma_tdiv_scaled_bound((s as int) * (n@.xy), ONE as int, 0x400000);
            lemma_tdiv_scaled_bound((s as int) * (n@.xw), ONE as int, 0x400000);
            lemma_tdiv_scaled_bound((s as int) * (n@.yw), ONE as int, 0x400000);
            lemma_tdiv_scaled_bound((s as int) * (n@.zw), ONE as int, 0x400000);
        }
        let r0: Rotor4 = Rotor4 {
            a: c,
            bv: Bivector4 {
                yz: -fx_mul(s, n.yz),
                xz: -fx_mul(s, n.xz),
                xy: -fx_mul(s, n.xy),
                xw: -fx_mul(s, n.xw),
                yw: -fx_mul(s, n.yw),
                zw: -fx_mul(s, n.zw),
            },
            p: 0,
        };
        r0.normalized()
    }

    /// Twice the rotation from `v` to `u`: scalar part the dot product,
    /// bivector part the wedge, no quadvector part.
    pub fn geometric_product(u: Fix4, v: Fix4) -> (r: Rotor4)
        requires
            ok4(u@),
            ok4(v@),
        ensures
            (r@ == R4 {
                a: sat_r4(q1(dot4(u@, v@))),
                yz: sat_r4(q1(wedge4(u@, v@).yz)),
                xz: sat_r4(q1(wedge4(u@, v@).xz)),
                xy: sat_r4(q1(wedge4(u@, v@).xy)),
                xw: sat_r4(q1(wedge4(u@, v@).xw)),
                yw: sat_r4(q1(wedge4(u@, v@).yw)),
                zw: sat_r4(q1(wedge4(u@, v@).zw)),
                p: 0,
            }),
            okr4(r@),
    {
        Rotor4 {
            a: finish1(
                wide_mul2(u.x, v.x) + wide_mul2(u.y, v.y) + wide_mul2(u.z, v.z) + wide_mul2(
                    u.w,
                    v.w,
                ),
                ROT_LIM,
            ),
            bv: Bivector4 {
                yz: finish1(wide_mul2(u.y, v.z) - wide_mul2(u.z, v.y), ROT_LIM),
                xz: finish1(wide_mul2(u.x, v.z) - wide_mul2(u.z, v.x), ROT_LIM),
                xy: finish1(wide_mul2(u.x, v.y) - wide_mul2(u.y, v.x), ROT_LIM),
                xw: finish1(wide_mul2(u.x, v.w) - wide_mul2(u.w, v.x), ROT_LIM),
                yw: finish1(wide_mul2(u.y, v.w) - wide_mul2(u.w, v.y), ROT_LIM),
                zw: finish1(wide_mul2(u.z, v.w) - wide_mul2(u.w, v.z), ROT_LIM),
            },
            p: 0,
        }
    }

    /// The reverse: the bivector part negated, the scalar and quadvector
    /// parts kept.  For a unit rotor built of a single plane this is the
    /// inverse (`algebra4::lemma_compose4_reverse`).
    pub fn reverse(r: &Rotor4) -> (res: Rotor4)
        requires
            okr4(r@),
        ensures
            (res@ == rev4(r@)),
            okr4(res@),
    {
        Rotor4 {
            a: r.a,
            bv: Bivector4 {
                yz: -r.bv.yz,
                xz: -r.bv.xz,
                xy: -r.bv.xy,
                xw: -r.bv.xw,
                yw: -r.bv.yw,
                zw: -r.bv.zw,
            },
            p: r.p,
        }
    }

    /// Reverses this rotor in place.
    pub fn reverse_me(&mut self)
        requires
            okr4(old(self)@),
        ensures
            (final(self)@ == rev4(old(self)@)),
            okr4(final(self)@),
    {
        self.bv = Bivector4 {
            yz: -self.bv.yz,
            xz: -self.bv.xz,
            xy: -self.bv.xy,
            xw: -self.bv.xw,
            yw: -self.bv.yw,
            zw: -self.bv.zw,
        };
    }

    /// The rotor product: composing `b` onto `a`.
    pub fn rotate_rotor(a: &Rotor4, b: &Rotor4) -> (r: Rotor4)
        requires
            okr4(a@),
            okr4(b@),
        ensures
            (r@ == spec_compose4(a@, b@)),
            okr4(r@),
    {
        let e_a: i128 = wide_mul2(a.a, b.a) + wide_mul2(a.p, b.p) - wide_mul2(a.bv.xw, b.bv.xw) - wide_mul2(a.bv.xy, b.bv.xy) - wide_mul2(a.bv.xz, b.bv.xz) - wide_mul2(a.bv.yw, b.bv.yw) - wide_mul2(a.bv.yz, b.bv.yz) - wide_mul2(a.bv.zw, b.bv.zw);
        let e_yz: i128 = wide_mul2(a.bv.yz, b.a) + wide_mul2(a.a, b.bv.yz) - wide_mul2(a.bv.xw, b.p) - wide_mul2(a.bv.xy, b.bv.xz) + wide_mul2(a.bv.xz, b.bv.xy) - wide_mul2(a.bv.yw, b.bv.zw) + wide_mul2(a.bv.zw, b.bv.yw) - wide_mul2(a.p, b.bv.xw);
        let e_xz: i128 = wide_mul2(a.bv.xz, b.a) + wide_mul2(a.a, b.bv.xz) - wide_mul2(a.bv.xw, b.bv.zw) + wide_mul2(a.bv.xy, b.bv.yz) + wide_mul2(a.bv.yw, b.p) - wide_mul2(a.bv.yz, b.bv.xy) + wide_mul2(a.bv.zw, b.bv.xw) + wide_mul2(a.p, b.bv.yw);
        let e_xy: i128 = wide_mul2(a.bv.xy, b.a) + wide_mul2(a.a, b.bv.xy) - wide_mul2(a.bv.xw, b.bv.yw) - wide_mul2(a.bv.xz, b.bv.yz) + wide_mul2(a.bv.yw, b.bv.xw) + wide_mul2(a.bv.yz, b.bv.xz) - wide_mul2(a.bv.zw, b.p) - wide_mul2(a.p, b.bv.zw);
        let e_xw: i128 = wide_mul2(a.bv.xw, b.a) + wide_mul2(a.a, b.bv.xw) + wide_mul2(a.bv.xy, b.bv.yw) + wide_mul2(a.bv.xz, b.bv.zw) - wide_mul2(a.bv.yw, b.bv.xy) - wide_mul2(a.bv.yz, b.p) - wide_mul2(a.bv.zw, b.bv.xz) - wide_mul2(a.p, b.bv.yz);
        let e_yw: i128 = wide_mul2(a.bv.yw, b.a) + wide_mul2(a.a, b.bv.yw) + wide_mul2(a.bv.xw, b.bv.xy) - wide_mul2(a.bv.xy, b.bv.xw) + wide_mul2(a.bv.xz, b.p) + wide_mul2(a.bv.yz, b.bv.zw) - wide_mul2(a.bv.zw, b.bv.yz) + wide_mul2(a.p, b.bv.xz);
        let e_zw: i128 = wide_mul2(a.bv.zw, b.a) + wide_mul2(a.a, b.bv.zw) + wide_mul2(a.bv.xw, b.bv.xz) - wide_mul2(a.bv.xy, b.p) - wide_mul2(a.bv.xz, b.bv.xw) + wide_mul2(a.bv.yw, b.bv.yz) - wide_mul2(a.bv.yz, b.bv.yw) - wide_mul2(a.p, b.bv.xy);
        let e_p: i128 = wide_mul2(a.p, b.a) + wide_mul2(a.a, b.p) + wide_mul2(a.bv.xw, b.bv.yz) + wide_mul2(a.bv.xy, b.bv.zw) - wide_mul2(a.bv.xz, b.bv.yw) - wide_mul2(a.bv.yw, b.bv.xz) + wide_mul2(a.bv.yz, b.bv.xw) + wide_mul2(a.bv.zw, b.bv.xy);
        Rotor4 {
            a: finish1(e_a, ROT_LIM),
            bv: Bivector4 {
                yz: finish1(e_yz, ROT_LIM),
                xz: finish1(e_xz, ROT_LIM),
                xy: finish1(e_xy, ROT_LIM),
                xw: finish1(e_xw, ROT_LIM),
                yw: finish1(e_yw, ROT_LIM),
                zw: finish1(e_zw, ROT_LIM),
            },
            p: finish1(e_p, ROT_LIM),
        }
    }

    /// Applies the rotor to a vector by the sandwich product, one closed
    /// polynomial per component.  The identity rotor returns the vector
    /// unchanged (`algebra4::lemma_apply4_ident`).
    #[verifier::rlimit(60)]
    pub fn rotate_vector(&self, v: Fix4) -> (r: Fix4)
        requires
            okr4(self@),
            ok4(v@),
        ensures
            (r@ == spec_rotate4(self@, v@)),
            ok4(r@),
    {
        let r_x: i128 = wide_mul3(v.x, self.a, self.a) + wide_mul3(v.x, self.bv.yw, self.bv.yw) + wide_mul3(v.x, self.bv.yz, self.bv.yz) + wide_mul3(v.x, self.bv.zw, self.bv.zw) - wide_mul3(v.x, self.bv.xw, self.bv.xw) - wide_mul3(v.x, self.bv.xy, self.bv.xy) - wide_mul3(v.x, self.bv.xz, self.bv.xz) - wide_mul3(v.x, self.p, self.p) + 2 * wide_mul3(v.w, self.bv.xw, self.a) + 2 * wide_mul3(v.w, self.bv.xy, self.bv.yw) + 2 * wide_mul3(v.w, self.bv.xz, self.bv.zw) + 2 * wide_mul3(v.w, self.bv.yz, self.p) - 2 * wide_mul3(v.y, self.bv.xw, self.bv.yw) + 2 * wide_mul3(v.y, self.bv.xy, self.a) - 2 * wide_mul3(v.y, self.bv.xz, self.bv.yz) + 2 * wide_mul3(v.y, self.bv.zw, self.p) - 2 * wide_mul3(v.z, self.bv.xw, self.bv.zw) + 2 * wide_mul3(v.z, self.bv.xy, self.bv.yz) + 2 * wide_mul3(v.z, self.bv.xz, self.a) - 2 * wide_mul3(v.z, self.bv.yw, self.p);
        let r_y: i128 = wide_mul3(v.y, self.a, self.a) + wide_mul3(v.y, self.bv.xw, self.bv.xw) + wide_mul3(v.y, self.bv.xz, self.bv.xz) + wide_mul3(v.y, self.bv.zw, self.bv.zw) - wide_mul3(v.y, self.bv.xy, self.bv.xy) - wide_mul3(v.y, self.bv.yw, self.bv.yw) - wide_mul3(v.y, self.bv.yz, self.bv.yz) - wide_mul3(v.y, self.p, self.p) - 2 * wide_mul3(v.w, self.bv.xw, self.bv.xy) - 2 * wide_mul3(v.w, self.bv.xz, self.p) + 2 * wide_mul3(v.w, self.bv.yw, self.a) + 2 * wide_mul3(v.w, self.bv.yz, self.bv.zw) - 2 * wide_mul3(v.x, self.bv.xw, self.bv.yw) - 2 * wide_mul3(v.x, self.bv.xy, self.a) - 2 * wide_mul3(v.x, self.bv.xz, self.bv.yz) - 2 * wide_mul3(v.x, self.bv.zw, self.p) + 2 * wide_mul3(v.z, self.bv.xw, self.p) - 2 * wide_mul3(v.z, self.bv.xy, self.bv.xz) - 2 * wide_mul3(v.z, self.bv.yw, self.bv.zw) + 2 * wide_mul3(v.z, self.bv.yz, self.a);
        let r_z: i128 = wide_mul3(v.z, self.a, self.a) + wide_mul3(v.z, self.bv.xw, self.bv.xw) + wide_mul3(v.z, self.bv.xy, self.bv.xy) + wide_mul3(v.z, self.bv.yw, self.bv.yw) - wide_mul3(v.z, self.bv.xz, self.bv.xz) - wide_mul3(v.z, self.bv.yz, self.bv.yz) - wide_mul3(v.z, self.bv.zw, self.bv.zw) - wide_mul3(v.z, self.p, self.p) - 2 * wide_mul3(v.w, self.bv.xw, self.bv.xz) + 2 * wide_mul3(v.w, self.bv.xy, self.p) - 2 * wide_mul3(v.w, self.bv.yw, self.bv.yz) + 2 * wide_mul3(v.w, self.bv.zw, self.a) - 2 * wide_mul3(v.x, self.bv.xw, self.bv.zw) + 2 * wide_mul3(v.x, self.bv.xy, self.bv.yz) - 2 * wide_mul3(v.x, self.bv.xz, self.a) + 2 * wide_mul3(v.x, self.bv.yw, self.p) - 2 * wide_mul3(v.y, self.bv.xw, self.p) - 2 * wide_mul3(v.y, self.bv.xy, self.bv.xz) - 2 * wide_mul3(v.y, self.bv.yw, self.bv.zw) - 2 * wide_mul3(v.y, self.bv.yz, self.a);
        let r_w: i128 = wide_mul3(v.w, self.a, self.a) + wide_mul3(v.w, self.bv.xy, self.bv.xy) + wide_mul3(v.w, self.bv.xz, self.bv.xz) + wide_mul3(v.w, self.bv.yz, self.bv.yz) - wide_mul3(v.w, self.bv.xw, self.bv.xw) - wide_mul3(v.w, self.bv.yw, self.bv.yw) - wide_mul3(v.w, self.bv.zw, self.bv.zw) - wide_mul3(v.w, self.p, self.p) - 2 * wide_mul3(v.x, self.bv.xw, self.a) + 2 * wide_mul3(v.x, self.bv.xy, self.bv.yw) + 2 * wide_mul3(v.x, self.bv.xz, self.bv.zw) - 2 * wide_mul3(v.x, self.bv.yz, self.p) - 2 * wide_mul3(v.y, self.bv.xw, self.bv.xy) + 2 * wide_mul3(v.y, self.bv.xz, self.p) - 2 * wide_mul3(v.y, self.bv.yw, self.a) + 2 * wide_mul3(v.y, self.bv.yz, self.bv.zw) - 2 * wide_mul3(v.z, self.bv.xw, self.bv.xz) - 2 * wide_mul3(v.z, self.bv.xy, self.p) - 2 * wide_mul3(v.z, self.bv.yw, self.bv.yz) - 2 * wide_mul3(v.z, self.bv.zw, self.a);
        Fix4 {
            x: finish2(r_x, VEC_LIM),
            y: finish2(r_y, VEC_LIM),
            z: finish2(r_z, VEC_LIM),
            w: finish2(r_w, VEC_LIM),
        }
    }

    /// The squared length at scale `ONE`, exact.
    pub fn length_squared(&self) -> (r: i64)
        requires
            okr4(self@),
        ensures
            r as int == q1(len2_r4(self@)),
            0 <= r,
    {
        let s: i128 = wide_mul2(self.a, self.a) + wide_mul2(self.bv.yz, self.bv.yz)
            + wide_mul2(self.bv.xz, self.bv.xz) + wide_mul2(self.bv.xy, self.bv.xy)
            + wide_mul2(self.bv.xw, self.bv.xw) + wide_mul2(self.bv.yw, self.bv.yw)
            + wide_mul2(self.bv.zw, self.bv.zw) + wide_mul2(self.p, self.p);
        proof {
            lemma_len2_r4_parts(self@);
        }
        let r: i64 = s as i64;
        let d: i64 = r / ONE;
        d
    }

    /// The length at scale `ONE`.
    pub fn length(&self) -> (r: i64)
        requires
            okr4(self@),
        ensures
            r as int == sqrtf(len2_r4(self@)),
            0 <= r <= 3037000499,
    {
        let s: i128 = wide_mul2(self.a, self.a) + wide_mul2(self.bv.yz, self.bv.yz)
            + wide_mul2(self.bv.xz, self.bv.xz) + wide_mul2(self.bv.xy, self.bv.xy)
            + wide_mul2(self.bv.xw, self.bv.xw) + wide_mul2(self.bv.yw, self.bv.yw)
            + wide_mul2(self.bv.zw, self.bv.zw) + wide_mul2(self.p, self.p);
        proof {
            lemma_len2_r4_parts(self@);
        }
        isqrt(s as i64)
    }

    /// Scales the rotor to unit length in place; a zero rotor is left
    /// unchanged.
    pub fn normalize(&mut self)
        requires
            okr4(old(self)@),
        ensures
            (final(self)@ == spec_normalized_r4(old(self)@)),
            okr4(final(self)@),
    {
        let l: i64 = self.length();
        if l > 0 {
            proof {
                lemma_normr4_bounds(self@);
            }
            self.a = sat64(fx_div(self.a, l), ONE);
            self.bv.yz = sat64(fx_div(self.bv.yz, l), ONE);
            self.bv.xz = sat64(fx_div(self.bv.xz, l), ONE);
            self.bv.xy = sat64(fx_div(self.bv.xy, l), ONE);
            self.bv.xw = sat64(fx_div(self.bv.xw, l), ONE);
            self.bv.yw = sat64(fx_div(self.bv.yw, l), ONE);
            self.bv.zw = sat64(fx_div(self.bv.zw, l), ONE);
            self.p = sat64(fx_div(self.p, l), ONE);
        }
    }

    /// The rotor scaled to unit length; a zero rotor is returned
    /// unchanged.
    pub fn normalized(&self) -> (r: Rotor4)
        requires
            okr4(self@),
        ensures
            (r@ == spec_normalized_r4(self@)),
            okr4(r@),
    {
        let mut r: Rotor4 = *self;
        r.normalize();
        r
    }

    /// The combined scalar magnitude at scale `ONE`.
    fn scalar_mag(&self) -> (r: i64)
        requires
            okr4(self@),
        ensures
            r as int == spec_scalar_mag4(self@),
            0 <= r <= 3037000499,
    {
        let s: i128 = wide_mul2(self.a, self.a) + wide_mul2(self.p, self.p);
        proof {
            lemma_len2_r4_parts(self@);
        }
        isqrt(s as i64)
    }

    /// The angle of the rotor in fixed-point radians, in `[0, 2 pi]`:
    /// the quadvector part contributes to the scalar magnitude.
    pub fn angle(&self) -> (r: i64)
        requires
            okr4(self@),
        ensures
            r as int == spec_angle4(self@),
            0 <= r <= 2 * PI_FX,
    {
        2 * acos_fx(sat64(self.scalar_mag(), ONE))
    }

    /// The rotor that rotates orientation `a` into orientation `b`.
    pub fn from_to(a: &Rotor4, b: &Rotor4) -> (r: Rotor4)
        requires
            okr4(a@),
            okr4(b@),
        ensures
            (r@ == spec_from_to4(a@, b@)),
            okr4(r@),
    {
        Rotor4::rotate_rotor(b, &Rotor4::reverse(a)).normalized()
    }

    /// Whether the angle between the two orientations is below
    /// `ANGLE_EPS_FX`.
    pub fn approx_equal(a: &Rotor4, b: &Rotor4) -> (r: bool)
        requires
            okr4(a@),
            okr4(b@),
        ensures
            r == (spec_angle4(spec_from_to4(a@, b@)) < ANGLE_EPS_FX),
    {
        let angle: i64 = Rotor4::from_to(a, b).angle();
        angle < ANGLE_EPS_FX
    }

    /// Spherical interpolation from one rotor to another along the
    /// shortest arc; `t` runs from `0` (at `from`) to `ONE` (at `to`).
    pub fn slerp(from: &Rotor4, to: &Rotor4, t: i64) -> (r: Rotor4)
        requires
            okr4(from@),
            okr4(to@),
            0 <= t <= ONE,
        ensures
            (r@ == spec_slerp4(from@, to@, t as int)),
            okr4(r@),
    {
        let d: Rotor4 = Rotor4::from_to(from, to);
        let mut cos_omega: i64 = d.scalar_mag();
        let mut flip: bool = false;
        if cos_omega < 0 {
            flip = true;
            cos_omega = -cos_omega;
        }
        let om: i64 = acos_fx(sat64(cos_omega, ONE));
        let so: i64 = sin_fx(om);
        let s1: i64;
        let s2p: i64;
        if cos_omega > ONE - SLERP_EPS_FX || so == 0 {
            s1 = ONE - t;
            s2p = t;
        } else {
            let m1: i64 = fx_mul(ONE - t, om);
            let m2: i64 = fx_mul(t, om);
            proof {
                assert(0 <= ((ONE - t) as int) * (om as int) <= (ONE as int) * (PI_FX as int)
                    && 0 <= (t as int) * (om as int) <= (ONE as int) * (PI_FX as int))
                    by (nonlinear_arith)
                    requires
                        0 <= t <= ONE,
                        0 <= om <= PI_FX,
                ;
                lemma_tdiv_scaled_bound(((ONE - t) as int) * (om as int), ONE as int, PI_FX as int);
                lemma_tdiv_scaled_bound((t as int) * (om as int), ONE as int, PI_FX as int);
            }
            s1 = sat64(fx_div(sin_fx(m1), so), WEIGHT_LIM);
            s2p = sat64(fx_div(sin_fx(m2), so), WEIGHT_LIM);
        }
        let s2: i64 = if flip {
            -s2p
        } else {
            s2p
        };
        let p1_a: i64 = fx_mul(s1, from.a);
        let p1_yz: i64 = fx_mul(s1, from.bv.yz);
        let p1_xz: i64 = fx_mul(s1, from.bv.xz);
        let p1_xy: i64 = fx_mul(s1, from.bv.xy);
        let p1_xw: i64 = fx_mul(s1, from.bv.xw);
        let p1_yw: i64 = fx_mul(s1, from.bv.yw);
        let p1_zw: i64 = fx_mul(s1, from.bv.zw);
        let p1_p: i64 = fx_mul(s1, from.p);
        let p2_a: i64 = fx_mul(s2, to.a);
        let p2_yz: i64 = fx_mul(s2, to.bv.yz);
        let p2_xz: i64 = fx_mul(s2, to.bv.xz);
        let p2_xy: i64 = fx_mul(s2, to.bv.xy);
        let p2_xw: i64 = fx_mul(s2, to.bv.xw);
        let p2_yw: i64 = fx_mul(s2, to.bv.yw);
        let p2_zw: i64 = fx_mul(s2, to.bv.zw);
        let p2_p: i64 = fx_mul(s2, to.p);
        proof {
            lemma_weight_products4(s1 as int, from@);
            lemma_weight_products4(s2 as int, to@);
            lemma_tdiv_scaled_bound((s1 as int) * (from@.a), ONE as int, 0x10000000000);
            lemma_tdiv_scaled_bound((s1 as int) * (from@.yz), ONE as int, 0x10000000000);
            lemma_tdiv_scaled_bound((s1 as int) * (from@.xz), ONE as int, 0x10000000000);
            lemma_tdiv_scaled_bound((s1 as int) * (from@.xy), ONE as int, 0x10000000000);
            lemma_tdiv_scaled_bound((s1 as int) * (from@.xw), ONE as int, 0x10000000000);
            lemma_tdiv_scaled_bound((s1 as int) * (from@.yw), ONE as int, 0x10000000000);
            lemma_tdiv_scaled_bound((s1 as int) * (from@.zw), ONE as int, 0x10000000000);
            lemma_tdiv_scaled_bound((s1 as int) * (from@.p), ONE as int, 0x10000000000);
            lemma_tdiv_scaled_bound((s2 as int) * (to@.a), ONE as int, 0x10000000000);
            lemma_tdiv_scaled_bound((s2 as int) * (to@.yz), ONE as int, 0x10000000000);
            lemma_tdiv_scaled_bound((s2 as int) * (to@.xz), ONE as int, 0x10000000000);
            lemma_tdiv_scaled_bound((s2 as int) * (to@.xy), ONE as int, 0x10000000000);
            lemma_tdiv_scaled_bound((s2 as int) * (to@.xw), ONE as int, 0x10000000000);
            lemma_tdiv_scaled_bound((s2 as int) * (to@.yw), ONE as int, 0x10000000000);
            lemma_tdiv_scaled_bound((s2 as int) * (to@.zw), ONE as int, 0x10000000000);
            lemma_tdiv_scaled_bound((s2 as int) * (to@.p), ONE as int, 0x10000000000);
        }
        let mut out: Rotor4 = Rotor4 {
            a: sat64(p1_a + p2_a, ROT_LIM),
            bv: Bivector4 {
                yz: sat64(p1_yz + p2_yz, ROT_LIM),
                xz: sat64(p1_xz + p2_xz, ROT_LIM),
                xy: sat64(p1_xy + p2_xy, ROT_LIM),
                xw: sat64(p1_xw + p2_xw, ROT_LIM),
                yw: sat64(p1_yw + p2_yw, ROT_LIM),
                zw: sat64(p1_zw + p2_zw, ROT_LIM),
            },
            p: sat64(p1_p + p2_p, ROT_LIM),
        };
        out.normalize();
        out
    }
}

/// A weight times any in-range rotor component is within `ONE * 2^40`.
proof fn lemma_weight_products4(s: int, r: R4)
    requires
        -WEIGHT_LIM <= s <= WEIGHT_LIM,
        okr4(r),
    ensures
        -(ONE as int) * 0x10000000000 <= s * r.a <= (ONE as int) * 0x10000000000,
        -(ONE as int) * 0x10000000000 <= s * r.yz <= (ONE as int) * 0x10000000000,
        -(ONE as int) * 0x10000000000 <= s * r.xz <= (ONE as int) * 0x10000000000,
        -(ONE as int) * 0x10000000000 <= s * r.xy <= (ONE as int) * 0x10000000000,
        -(ONE as int) * 0x10000000000 <= s * r.xw <= (ONE as int) * 0x10000000000,
        -(ONE as int) * 0x10000000000 <= s * r.yw <= (ONE as int) * 0x10000000000,
        -(ONE as int) * 0x10000000000 <= s * r.zw <= (ONE as int) * 0x10000000000,
        -(ONE as int) * 0x10000000000 <= s * r.p <= (ONE as int) * 0x10000000000,
{
    assert(-(ONE as int) * 0x10000000000 <= s * r.a <= (ONE as int) * 0x10000000000
        && -(ONE as int) * 0x10000000000 <= s * r.yz <= (ONE as int) * 0x10000000000
        && -(ONE as int) * 0x10000000000 <= s * r.xz <= (ONE as int) * 0x10000000000
        && -(ONE as int) * 0x10000000000 <= s * r.xy <= (ONE as int) * 0x10000000000
        && -(ONE as int) * 0x10000000000 <= s * r.xw <= (ONE as int) * 0x10000000000
        && -(ONE as int) * 0x10000000000 <= s * r.yw <= (ONE as int) * 0x10000000000
        && -(ONE as int) * 0x10000000000 <= s * r.zw <= (ONE as int) * 0x10000000000
        && -(ONE as int) * 0x10000000000 <= s * r.p <= (ONE as int) * 0x10000000000)
        by (nonlinear_arith)
        requires
            -WEIGHT_LIM <= s <= WEIGHT_LIM,
            -ROT_LIM <= r.a <= ROT_LIM,
            -ROT_LIM <= r.yz <= ROT_LIM,
            -ROT_LIM <= r.xz <= ROT_LIM,
            -ROT_LIM <= r.xy <= ROT_LIM,
            -ROT_LIM <= r.xw <= ROT_LIM,
            -ROT_LIM <= r.yw <= ROT_LIM,
            -ROT_LIM <= r.zw <= ROT_LIM,
            -ROT_LIM <= r.p <= ROT_LIM,
    ;
}

/// The raw squared length of an in-range rotor splits into nonnegative
/// squares, each at most `ROT_LIM^2`.
proof fn lemma_len2_r4_parts(r: R4)
    requires
        okr4(r),
    ensures
        0 <= r.a * r.a <= 0x1000000000000,
        0 <= r.yz * r.yz <= 0x1000000000000,
        0 <= r.xz * r.xz <= 0x1000000000000,
        0 <= r.xy * r.xy <= 0x1000000000000,
        0 <= r.xw * r.xw <= 0x1000000000000,
        0 <= r.yw * r.yw <= 0x1000000000000,
        0 <= r.zw * r.zw <= 0x1000000000000,
        0 <= r.p * r.p <= 0x1000000000000,
{
    assert(0 <= r.a * r.a <= 0x1000000000000) by (nonlinear_arith)
        requires
            -ROT_LIM <= r.a <= ROT_LIM,
    ;
    assert(0 <= r.yz * r.yz <= 0x1000000000000) by (nonlinear_arith)
        requires
            -ROT_LIM <= r.yz <= ROT_LIM,
    ;
    assert(0 <= r.xz * r.xz <= 0x1000000000000) by (nonlinear_arith)
        requires
            -ROT_LIM <= r.xz <= ROT_LIM,
    ;
    assert(0 <= r.xy * r.xy <= 0x1000000000000) by (nonlinear_arith)
        requires
            -ROT_LIM <= r.xy <= ROT_LIM,
    ;
    assert(0 <= r.xw * r.xw <= 0x1000000000000) by (nonlinear_arith)
        requires
            -ROT_LIM <= r.xw <= ROT_LIM,
    ;
    assert(0 <= r.yw * r.yw <= 0x1000000000000) by (nonlinear_arith)
        requires
            -ROT_LIM <= r.yw <= ROT_LIM,
    ;
    assert(0 <= r.zw * r.zw <= 0x1000000000000) by (nonlinear_arith)
        requires
            -ROT_LIM <= r.zw <= ROT_LIM,
    ;
    assert(0 <= r.p * r.p <= 0x1000000000000) by (nonlinear_arith)
        requires
            -ROT_LIM <= r.p <= ROT_LIM,
    ;
}

/// With a positive length, each component divided by the length stays
/// within one unit.
proof fn lemma_normr4_bounds(r: R4)
    requires
        okr4(r),
        sqrtf(len2_r4(r)) >= 1,
    ensures
        -ONE <= tdiv(r.a * ONE, sqrtf(len2_r4(r))) <= ONE,
        -ONE <= tdiv(r.yz * ONE, sqrtf(len2_r4(r))) <= ONE,
        -ONE <= tdiv(r.xz * ONE, sqrtf(len2_r4(r))) <= ONE,
        -ONE <= tdiv(r.xy * ONE, sqrtf(len2_r4(r))) <= ONE,
        -ONE <= tdiv(r.xw * ONE, sqrtf(len2_r4(r))) <= ONE,
        -ONE <= tdiv(r.yw * ONE, sqrtf(len2_r4(r))) <= ONE,
        -ONE <= tdiv(r.zw * ONE, sqrtf(len2_r4(r))) <= ONE,
        -ONE <= tdiv(r.p * ONE, sqrtf(len2_r4(r))) <= ONE,
{
    let n = len2_r4(r);
    let l = sqrtf(n);
    lemma_sqrtf(n);
    lemma_len2_r4_parts(r);
    lemma_component_le_sqrt(r.a, n, l);
    lemma_component_le_sqrt(r.yz, n, l);
    lemma_component_le_sqrt(r.xz, n, l);
    lemma_component_le_sqrt(r.xy, n, l);
    lemma_component_le_sqrt(r.xw, n, l);
    lemma_component_le_sqrt(r.yw, n, l);
    lemma_component_le_sqrt(r.zw, n, l);
    lemma_component_le_sqrt(r.p, n, l);
    assert(-(l * ONE) <= r.a * ONE <= l * ONE
        && -(l * ONE) <= r.yz * ONE <= l * ONE
        && -(l * ONE) <= r.xz * ONE <= l * ONE
        && -(l * ONE) <= r.xy * ONE <= l * ONE
        && -(l * ONE) <= r.xw * ONE <= l * ONE
        && -(l * ONE) <= r.yw * ONE <= l * ONE
        && -(l * ONE) <= r.zw * ONE <= l * ONE
        && -(l * ONE) <= r.p * ONE <= l * ONE)
        by (nonlinear_arith)
        requires
            -l <= r.a <= l,
            -l <= r.yz <= l,
            -l <= r.xz <= l,
            -l <= r.xy <= l,
            -l <= r.xw <= l,
            -l <= r.yw <= l,
            -l <= r.zw <= l,
            -l <= r.p <= l,
            ONE >= 1,
    ;
    lemma_tdiv_scaled_bound(r.a * ONE, l, ONE as int);
    lemma_tdiv_scaled_bound(r.yz * ONE, l, ONE as int);
    lemma_tdiv_scaled_bound(r.xz * ONE, l, ONE as int);
    lemma_tdiv_scaled_bound(r.xy * ONE, l, ONE as int);
    lemma_tdiv_scaled_bound(r.xw * ONE, l, ONE as int);
    lemma_tdiv_scaled_bound(r.yw * ONE, l, ONE as int);
    lemma_tdiv_scaled_bound(r.zw * ONE, l, ONE as int);
    lemma_tdiv_scaled_bound(r.p * ONE, l, ONE as int);
}

} // verus!
