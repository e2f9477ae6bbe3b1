//! The exact integer model of the 3-dimensional geometric algebra.
//!
//! The executable types store scale-`ONE` fixed-point components and
//! rescale every product; the functions here are the raw, unscaled
//! polynomials those operations compute before rescaling.  The laws of the
//! algebra — antisymmetry of the wedge, the identity rotation, the
//! reverse being the inverse, rotation preserving length — hold of these
//! polynomials exactly, and are proved in this module.

use vstd::prelude::*;

verus! {

/// A 3-vector of the integer model.
pub ghost struct V3 {
    pub x: int,
    pub y: int,
    pub z: int,
}

/// A 3-dimensional bivector of the integer model, in the fixed component
/// order yz, xz, xy.
pub ghost struct B3 {
    pub yz: int,
    pub xz: int,
    pub xy: int,
}

/// A 3-dimensional rotor of the integer model: a scalar part and a
/// bivector part.
pub ghost struct R3 {
    pub a: int,
    pub yz: int,
    pub xz: int,
    pub xy: int,
}

/// The identity rotor at scale `k`: scalar part `k`, no bivector part.
pub open spec fn ident3(k: int) -> R3 {
    R3 { a: k, yz: 0, xz: 0, xy: 0 }
}

/// The dot product of two 3-vectors.
pub open spec fn dot3(u: V3, v: V3) -> int {
    u.x * v.x + u.y * v.y + u.z * v.z
}

/// The raw wedge product of two 3-vectors.
pub open spec fn wedge3(u: V3, v: V3) -> B3 {
    B3 {
        yz: u.y * v.z - u.z * v.y,
        xz: u.x * v.z - u.z * v.x,
        xy: u.x * v.y - u.y * v.x,
    }
}

/// The negation of a bivector: the same plane with opposite orientation.
pub open spec fn neg_b3(b: B3) -> B3 {
    B3 { yz: -b.yz, xz: -b.xz, xy: -b.xy }
}

/// The squared length of a 3-vector.
pub open spec fn len2_v3(v: V3) -> int {
    v.x * v.x + v.y * v.y + v.z * v.z
}

/// The squared length of a rotor: scalar and bivector components summed.
pub open spec fn len2_r3(r: R3) -> int {
    r.a * r.a + r.yz * r.yz + r.xz * r.xz + r.xy * r.xy
}

/// The reverse of a rotor: the bivector part negated.
pub open spec fn rev3(r: R3) -> R3 {
    R3 { a: r.a, yz: -r.yz, xz: -r.xz, xy: -r.xy }
}

/// The raw rotor product (composition): the bilinear combination given by
/// the multiplication table of the algebra.
pub open spec fn compose3(a: R3, b: R3) -> R3 {
    R3 {
        a: a.a * b.a - a.xy * b.xy - a.xz * b.xz - a.yz * b.yz,
        xy: a.xy * b.a + a.a * b.xy + a.yz * b.xz - a.xz * b.yz,
        xz: a.xz * b.a + a.a * b.xz - a.yz * b.xy + a.xy * b.yz,
        yz: a.yz * b.a + a.a * b.yz + a.xz * b.xy - a.xy * b.xz,
    }
}

/// The raw sandwich product: the rotor applied to a vector, one closed
/// polynomial per output component.
pub open spec fn apply3(r: R3, v: V3) -> V3 {
    V3 {
        x: (v.x * (r.a * r.a) + v.x * (r.yz * r.yz) - v.x * (r.xy * r.xy) - v.x * (r.xz * r.xz)
            + 2 * (v.y * (r.xy * r.a)) - 2 * (v.y * (r.xz * r.yz)) + 2 * (v.z * (r.xy * r.yz))
            + 2 * (v.z * (r.xz * r.a))),
        y: (v.y * (r.a * r.a) + v.y * (r.xz * r.xz) - v.y * (r.xy * r.xy) - v.y * (r.yz * r.yz)
            - 2 * (v.x * (r.xy * r.a)) - 2 * (v.x * (r.xz * r.yz)) - 2 * (v.z * (r.xy * r.xz))
            + 2 * (v.z * (r.yz * r.a))),
        z: (v.z * (r.a * r.a) + v.z * (r.xy * r.xy) - v.z * (r.xz * r.xz) - v.z * (r.yz * r.yz)
            + 2 * (v.x * (r.xy * r.yz)) - 2 * (v.x * (r.xz * r.a)) - 2 * (v.y * (r.xy * r.xz))
            - 2 * (v.y * (r.yz * r.a))),
    }
}

/// The wedge product is antisymmetric: swapping its arguments negates it.
pub proof fn lemma_wedge3_antisymmetric(u: V3, v: V3)
    ensures
        (wedge3(u, v) == neg_b3(wedge3(v, u))),
{
}

/// The wedge of a vector with itself vanishes.
pub proof fn lemma_wedge3_self(v: V3)
    ensures
        (wedge3(v, v) == B3 { yz: 0, xz: 0, xy: 0 }),
{
}

/// The identity rotor at scale `k` maps every vector to `k * k` times
/// itself; at scale `ONE` the executable rotation returns the vector
/// unchanged after rescaling.
pub proof fn lemma_apply3_ident(k: int, v: V3)
    ensures
        (apply3(ident3(k), v) == V3 { x: k * k * v.x, y: k * k * v.y, z: k * k * v.z }),
{
    assert(apply3(ident3(k), v).x == k * k * v.x) by (nonlinear_arith);
    assert(apply3(ident3(k), v).y == k * k * v.y) by (nonlinear_arith);
    assert(apply3(ident3(k), v).z == k * k * v.z) by (nonlinear_arith);
}

/// A rotor composed with its reverse is the identity rotor scaled by the
/// rotor's squared length: for a unit rotor, the identity.
pub proof fn lemma_compose3_reverse(r: R3)
    ensures
        (compose3(r, rev3(r)) == ident3(len2_r3(r))),
{
    assert(compose3(r, rev3(r)).a == len2_r3(r)) by (nonlinear_arith);
    assert(compose3(r, rev3(r)).xy == 0) by (nonlinear_arith);
    assert(compose3(r, rev3(r)).xz == 0) by (nonlinear_arith);
    assert(compose3(r, rev3(r)).yz == 0) by (nonlinear_arith);
}

/// Rotating a vector of length `m` along the first axis of the xy plane,
/// by the rotor with scalar part `c` and xy bivector part `-s`, gives
/// `(c^2 - s^2) m` along x and `2 c s m` along y: for `c` and `s` the
/// cosine and sine of the half angle at scale `k` (so `c^2 + s^2 == k^2`),
/// this is `k^2` times the rotation of the vector by the full angle, and
/// at ninety degrees (`c == s`) it lands exactly on the y axis.
pub proof fn lemma_plane_rotation_xy(c: int, s: int, m: int)
    ensures
        (apply3(R3 { a: c, yz: 0, xz: 0, xy: -s }, V3 { x: m, y: 0, z: 0 }) == V3 {
            x: (c * c - s * s) * m,
            y: 2 * (c * s) * m,
            z: 0,
        }),
{
    assert(apply3(R3 { a: c, yz: 0, xz: 0, xy: -s }, V3 { x: m, y: 0, z: 0 }).x == (c * c - s
        * s) * m) by (nonlinear_arith);
    assert(apply3(R3 { a: c, yz: 0, xz: 0, xy: -s }, V3 { x: m, y: 0, z: 0 }).y == 2 * (c * s)
        * m) by (nonlinear_arith);
    assert(apply3(R3 { a: c, yz: 0, xz: 0, xy: -s }, V3 { x: m, y: 0, z: 0 }).z == 0)
        by (nonlinear_arith);
}

/// The xz-plane counterpart of `lemma_plane_rotation_xy`.
pub proof fn lemma_plane_rotation_xz(c: int, s: int, m: int)
    ensures
        (apply3(R3 { a: c, yz: 0, xz: -s, xy: 0 }, V3 { x: m, y: 0, z: 0 }) == V3 {
            x: (c * c - s * s) * m,
            y: 0,
            z: 2 * (c * s) * m,
        }),
{
    assert(apply3(R3 { a: c, yz: 0, xz: -s, xy: 0 }, V3 { x: m, y: 0, z: 0 }).x == (c * c - s
        * s) * m) by (nonlinear_arith);
    assert(apply3(R3 { a: c, yz: 0, xz: -s, xy: 0 }, V3 { x: m, y: 0, z: 0 }).y == 0)
        by (nonlinear_arith);
    assert(apply3(R3 { a: c, yz: 0, xz: -s, xy: 0 }, V3 { x: m, y: 0, z: 0 }).z == 2 * (c * s)
        * m) by (nonlinear_arith);
}

/// The yz-plane counterpart of `lemma_plane_rotation_xy`.
pub proof fn lemma_plane_rotation_yz(c: int, s: int, m: int)
    ensures
        (apply3(R3 { a: c, yz: -s, xz: 0, xy: 0 }, V3 { x: 0, y: m, z: 0 }) == V3 {
            x: 0,
            y: (c * c - s * s) * m,
            z: 2 * (c * s) * m,
        }),
{
    assert(apply3(R3 { a: c, yz: -s, xz: 0, xy: 0 }, V3 { x: 0, y: m, z: 0 }).x == 0)
        by (nonlinear_arith);
    assert(apply3(R3 { a: c, yz: -s, xz: 0, xy: 0 }, V3 { x: 0, y: m, z: 0 }).y == (c * c - s
        * s) * m) by (nonlinear_arith);
    assert(apply3(R3 { a: c, yz: -s, xz: 0, xy: 0 }, V3 { x: 0, y: m, z: 0 }).z == 2 * (c * s)
        * m) by (nonlinear_arith);
}

} // verus!
