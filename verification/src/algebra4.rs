//! The exact integer model of the 4-dimensional geometric algebra.
//!
//! As in `algebra3`, the functions here are the raw, unscaled polynomials
//! that the executable operations compute before rescaling, and the laws
//! are proved of them exactly.  In four dimensions a rotor also carries a
//! quadvector (pseudoscalar) coefficient, and a bivector need not be
//! simple: `simple_defect` measures how far a rotor is from one built of
//! a single plane, and the reverse law carries that defect along.

use vstd::prelude::*;

verus! {

/// A 4-vector of the integer model.
pub ghost struct V4 {
    pub x: int,
    pub y: int,
    pub z: int,
    pub w: int,
}

/// A 4-dimensional bivector of the integer model, in the fixed component
/// order yz, xz, xy, xw, yw, zw.
pub ghost struct B4 {
    pub yz: int,
    pub xz: int,
    pub xy: int,
    pub xw: int,
    pub yw: int,
    pub zw: int,
}

/// A 4-dimensional rotor of the integer model: a scalar part, a bivector
/// part and a quadvector part.
pub ghost struct R4 {
    pub a: int,
    pub yz: int,
    pub xz: int,
    pub xy: int,
    pub xw: int,
    pub yw: int,
    pub zw: int,
    pub p: int,
}

/// The identity rotor at scale `k`.
pub open spec fn ident4(k: int) -> R4 {
    R4 { a: k, yz: 0, xz: 0, xy: 0, xw: 0, yw: 0, zw: 0, p: 0 }
}

/// The dot product of two 4-vectors.
pub open spec fn dot4(u: V4, v: V4) -> int {
    u.x * v.x + u.y * v.y + u.z * v.z + u.w * v.w
}

/// The raw wedge product of two 4-vectors.
pub open spec fn wedge4(u: V4, v: V4) -> B4 {
    B4 {
        yz: u.y * v.z - u.z * v.y,
        xz: u.x * v.z - u.z * v.x,
        xy: u.x * v.y - u.y * v.x,
        xw: u.x * v.w - u.w * v.x,
        yw: u.y * v.w - u.w * v.y,
        zw: u.z * v.w - u.w * v.z,
    }
}

/// The negation of a 4-dimensional bivector.
pub open spec fn neg_b4(b: B4) -> B4 {
    B4 { yz: -b.yz, xz: -b.xz, xy: -b.xy, xw: -b.xw, yw: -b.yw, zw: -b.zw }
}

/// The squared length of a 4-vector.
pub open spec fn len2_v4(v: V4) -> int {
    v.x * v.x + v.y * v.y + v.z * v.z + v.w * v.w
}

/// The squared length of a rotor: all eight components summed.
pub open spec fn len2_r4(r: R4) -> int {
    r.a * r.a + r.yz * r.yz + r.xz * r.xz + r.xy * r.xy + r.xw * r.xw + r.yw * r.yw + r.zw
        * r.zw + r.p * r.p
}

/// The reverse of a rotor: the bivector part negated, the scalar and
/// quadvector parts kept.
pub open spec fn rev4(r: R4) -> R4 {
    R4 {
        a: r.a,
        yz: -r.yz,
        xz: -r.xz,
        xy: -r.xy,
        xw: -r.xw,
        yw: -r.yw,
        zw: -r.zw,
        p: r.p,
    }
}

/// How far the rotor is from being built of a single plane: zero exactly
/// when the scalar-quadvector pair balances the bivector's self-wedge, as
/// it does for any rotor made from one plane and an angle.
pub open spec fn simple_defect(r: R4) -> int {
    r.a * r.p - (r.xy * r.zw - r.xz * r.yw + r.xw * r.yz)
}

/// The raw rotor product: the bilinear combination given by the
/// multiplication table of the algebra.
pub open spec fn compose4(a: R4, b: R4) -> R4 {
    R4 {
        a: (a.a * b.a + a.p * b.p - a.xw * b.xw - a.xy * b.xy - a.xz * b.xz - a.yw * b.yw - a.yz * b.yz - a.zw * b.zw),
        yz: (a.yz * b.a + a.a * b.yz - a.xw * b.p - a.xy * b.xz + a.xz * b.xy - a.yw * b.zw + a.zw * b.yw - a.p * b.xw),
        xz: (a.xz * b.a + a.a * b.xz - a.xw * b.zw + a.xy * b.yz + a.yw * b.p - a.yz * b.xy + a.zw * b.xw + a.p * b.yw),
        xy: (a.xy * b.a + a.a * b.xy - a.xw * b.yw - a.xz * b.yz + a.yw * b.xw + a.yz * b.xz - a.zw * b.p - a.p * b.zw),
        xw: (a.xw * b.a + a.a * b.xw + a.xy * b.yw + a.xz * b.zw - a.yw * b.xy - a.yz * b.p - a.zw * b.xz - a.p * b.yz),
        yw: (a.yw * b.a + a.a * b.yw + a.xw * b.xy - a.xy * b.xw + a.xz * b.p + a.yz * b.zw - a.zw * b.yz + a.p * b.xz),
        zw: (a.zw * b.a + a.a * b.zw + a.xw * b.xz - a.xy * b.p - a.xz * b.xw + a.yw * b.yz - a.yz * b.yw - a.p * b.xy),
        p: (a.p * b.a + a.a * b.p + a.xw * b.yz + a.xy * b.zw - a.xz * b.yw - a.yw * b.xz + a.yz * b.xw + a.zw * b.xy),
    }
}

/// The raw sandwich product: the rotor applied to a vector, one closed
/// polynomial per output component.
pub open spec fn apply4(r: R4, v: V4) -> V4 {
    V4 {
        x: (v.x * (r.a * r.a) + v.x * (r.yw * r.yw) + v.x * (r.yz * r.yz) + v.x * (r.zw * r.zw) - v.x * (r.xw * r.xw) - v.x * (r.xy * r.xy) - v.x * (r.xz * r.xz) - v.x * (r.p * r.p) + 2 * (v.w * (r.xw * r.a)) + 2 * (v.w * (r.xy * r.yw)) + 2 * (v.w * (r.xz * r.zw)) + 2 * (v.w * (r.yz * r.p)) - 2 * (v.y * (r.xw * r.yw)) + 2 * (v.y * (r.xy * r.a)) - 2 * (v.y * (r.xz * r.yz)) + 2 * (v.y * (r.zw * r.p)) - 2 * (v.z * (r.xw * r.zw)) + 2 * (v.z * (r.xy * r.yz)) + 2 * (v.z * (r.xz * r.a)) - 2 * (v.z * (r.yw * r.p))),
        y: (v.y * (r.a * r.a) + v.y * (r.xw * r.xw) + v.y * (r.xz * r.xz) + v.y * (r.zw * r.zw) - v.y * (r.xy * r.xy) - v.y * (r.yw * r.yw) - v.y * (r.yz * r.yz) - v.y * (r.p * r.p) - 2 * (v.w * (r.xw * r.xy)) - 2 * (v.w * (r.xz * r.p)) + 2 * (v.w * (r.yw * r.a)) + 2 * (v.w * (r.yz * r.zw)) - 2 * (v.x * (r.xw * r.yw)) - 2 * (v.x * (r.xy * r.a)) - 2 * (v.x * (r.xz * r.yz)) - 2 * (v.x * (r.zw * r.p)) + 2 * (v.z * (r.xw * r.p)) - 2 * (v.z * (r.xy * r.xz)) - 2 * (v.z * (r.yw * r.zw)) + 2 * (v.z * (r.yz * r.a))),
        z: (v.z * (r.a * r.a) + v.z * (r.xw * r.xw) + v.z * (r.xy * r.xy) + v.z * (r.yw * r.yw) - v.z * (r.xz * r.xz) - v.z * (r.yz * r.yz) - v.z * (r.zw * r.zw) - v.z * (r.p * r.p) - 2 * (v.w * (r.xw * r.xz)) + 2 * (v.w * (r.xy * r.p)) - 2 * (v.w * (r.yw * r.yz)) + 2 * (v.w * (r.zw * r.a)) - 2 * (v.x * (r.xw * r.zw)) + 2 * (v.x * (r.xy * r.yz)) - 2 * (v.x * (r.xz * r.a)) + 2 * (v.x * (r.yw * r.p)) - 2 * (v.y * (r.xw * r.p)) - 2 * (v.y * (r.xy * r.xz)) - 2 * (v.y * (r.yw * r.zw)) - 2 * (v.y * (r.yz * r.a))),
        w: (v.w * (r.a * r.a) + v.w * (r.xy * r.xy) + v.w * (r.xz * r.xz) + v.w * (r.yz * r.yz) - v.w * (r.xw * r.xw) - v.w * (r.yw * r.yw) - v.w * (r.zw * r.zw) - v.w * (r.p * r.p) - 2 * (v.x * (r.xw * r.a)) + 2 * (v.x * (r.xy * r.yw)) + 2 * (v.x * (r.xz * r.zw)) - 2 * (v.x * (r.yz * r.p)) - 2 * (v.y * (r.xw * r.xy)) + 2 * (v.y * (r.xz * r.p)) - 2 * (v.y * (r.yw * r.a)) + 2 * (v.y * (r.yz * r.zw)) - 2 * (v.z * (r.xw * r.xz)) - 2 * (v.z * (r.xy * r.p)) - 2 * (v.z * (r.yw * r.yz)) - 2 * (v.z * (r.zw * r.a))),
    }
}

/// The wedge product is antisymmetric: swapping its arguments negates it.
pub proof fn lemma_wedge4_antisymmetric(u: V4, v: V4)
    ensures
        (wedge4(u, v) == neg_b4(wedge4(v, u))),
{
}

/// The wedge of a vector with itself vanishes.
pub proof fn lemma_wedge4_self(v: V4)
    ensures
        (wedge4(v, v) == B4 { yz: 0, xz: 0, xy: 0, xw: 0, yw: 0, zw: 0 }),
{
}

/// The identity rotor at scale `k` maps every vector to `k * k` times
/// itself.
pub proof fn lemma_apply4_ident(k: int, v: V4)
    ensures
        (apply4(ident4(k), v) == V4 {
            x: k * k * v.x,
            y: k * k * v.y,
            z: k * k * v.z,
            w: k * k * v.w,
        }),
{
    assert(apply4(ident4(k), v).x == k * k * v.x) by (nonlinear_arith);
    assert(apply4(ident4(k), v).y == k * k * v.y) by (nonlinear_arith);
    assert(apply4(ident4(k), v).z == k * k * v.z) by (nonlinear_arith);
    assert(apply4(ident4(k), v).w == k * k * v.w) by (nonlinear_arith);
}

/// A rotor composed with its reverse is the identity scaled by the squared
/// length, except for a quadvector remainder of twice the simplicity
/// defect: for a unit rotor built of a single plane, exactly the identity.
/// A rotor built by `bivector_angle` on a bivector that is not a single
/// plane (one with a nonzero self-wedge) leaves that remainder.
pub proof fn lemma_compose4_reverse(r: R4)
    ensures
        (compose4(r, rev4(r)) == R4 {
            a: len2_r4(r),
            yz: 0,
            xz: 0,
            xy: 0,
            xw: 0,
            yw: 0,
            zw: 0,
            p: 2 * simple_defect(r),
        }),
{
    assert(compose4(r, rev4(r)).a == len2_r4(r)) by (nonlinear_arith);
    assert(compose4(r, rev4(r)).yz == 0) by (nonlinear_arith);
    assert(compose4(r, rev4(r)).xz == 0) by (nonlinear_arith);
    assert(compose4(r, rev4(r)).xy == 0) by (nonlinear_arith);
    assert(compose4(r, rev4(r)).xw == 0) by (nonlinear_arith);
    assert(compose4(r, rev4(r)).yw == 0) by (nonlinear_arith);
    assert(compose4(r, rev4(r)).zw == 0) by (nonlinear_arith);
    assert(compose4(r, rev4(r)).p == 2 * simple_defect(r)) by (nonlinear_arith);
}

/// The xy-plane instance of the plane-rotation law: the rotor with
/// scalar part `c` and xy bivector part `-s` takes `m` along x to
/// `(c^2 - s^2) m` along x plus `2 c s m` along y.
pub proof fn lemma_plane_rotation_xy(c: int, s: int, m: int)
    ensures
        (apply4(R4 { a: c, yz: 0, xz: 0, xy: -s, xw: 0, yw: 0, zw: 0, p: 0 }, V4 { x: m, y: 0, z: 0, w: 0 }) == V4 { x: (c * c - s * s) * m, y: 2 * (c * s) * m, z: 0, w: 0 }),
{
    assert(apply4(R4 { a: c, yz: 0, xz: 0, xy: -s, xw: 0, yw: 0, zw: 0, p: 0 }, V4 { x: m, y: 0, z: 0, w: 0 }).x == (c * c - s * s) * m) by (nonlinear_arith);
    assert(apply4(R4 { a: c, yz: 0, xz: 0, xy: -s, xw: 0, yw: 0, zw: 0, p: 0 }, V4 { x: m, y: 0, z: 0, w: 0 }).y == 2 * (c * s) * m) by (nonlinear_arith);
    assert(apply4(R4 { a: c, yz: 0, xz: 0, xy: -s, xw: 0, yw: 0, zw: 0, p: 0 }, V4 { x: m, y: 0, z: 0, w: 0 }).z == 0) by (nonlinear_arith);
    assert(apply4(R4 { a: c, yz: 0, xz: 0, xy: -s, xw: 0, yw: 0, zw: 0, p: 0 }, V4 { x: m, y: 0, z: 0, w: 0 }).w == 0) by (nonlinear_arith);
}

/// The xz-plane instance of the plane-rotation law: the rotor with
/// scalar part `c` and xz bivector part `-s` takes `m` along x to
/// `(c^2 - s^2) m` along x plus `2 c s m` along z.
pub proof fn lemma_plane_rotation_xz(c: int, s: int, m: int)
    ensures
        (apply4(R4 { a: c, yz: 0, xz: -s, xy: 0, xw: 0, yw: 0, zw: 0, p: 0 }, V4 { x: m, y: 0, z: 0, w: 0 }) == V4 { x: (c * c - s * s) * m, y: 0, z: 2 * (c * s) * m, w: 0 }),
{
    assert(apply4(R4 { a: c, yz: 0, xz: -s, xy: 0, xw: 0, yw: 0, zw: 0, p: 0 }, V4 { x: m, y: 0, z: 0, w: 0 }).x == (c * c - s * s) * m) by (nonlinear_arith);
    assert(apply4(R4 { a: c, yz: 0, xz: -s, xy: 0, xw: 0, yw: 0, zw: 0, p: 0 }, V4 { x: m, y: 0, z: 0, w: 0 }).y == 0) by (nonlinear_arith);
    assert(apply4(R4 { a: c, yz: 0, xz: -s, xy: 0, xw: 0, yw: 0, zw: 0, p: 0 }, V4 { x: m, y: 0, z: 0, w: 0 }).z == 2 * (c * s) * m) by (nonlinear_arith);
    assert(apply4(R4 { a: c, yz: 0, xz: -s, xy: 0, xw: 0, yw: 0, zw: 0, p: 0 }, V4 { x: m, y: 0, z: 0, w: 0 }).w == 0) by (nonlinear_arith);
}

/// The yz-plane instance of the plane-rotation law: the rotor with
/// scalar part `c` and yz bivector part `-s` takes `m` along y to
/// `(c^2 - s^2) m` along y plus `2 c s m` along z.
pub proof fn lemma_plane_rotation_yz(c: int, s: int, m: int)
    ensures
        (apply4(R4 { a: c, yz: -s, xz: 0, xy: 0, xw: 0, yw: 0, zw: 0, p: 0 }, V4 { x: 0, y: m, z: 0, w: 0 }) == V4 { x: 0, y: (c * c - s * s) * m, z: 2 * (c * s) * m, w: 0 }),
{
    assert(apply4(R4 { a: c, yz: -s, xz: 0, xy: 0, xw: 0, yw: 0, zw: 0, p: 0 }, V4 { x: 0, y: m, z: 0, w: 0 }).x == 0) by (nonlinear_arith);
    assert(apply4(R4 { a: c, yz: -s, xz: 0, xy: 0, xw: 0, yw: 0, zw: 0, p: 0 }, V4 { x: 0, y: m, z: 0, w: 0 }).y == (c * c - s * s) * m) by (nonlinear_arith);
    assert(apply4(R4 { a: c, yz: -s, xz: 0, xy: 0, xw: 0, yw: 0, zw: 0, p: 0 }, V4 { x: 0, y: m, z: 0, w: 0 }).z == 2 * (c * s) * m) by (nonlinear_arith);
    assert(apply4(R4 { a: c, yz: -s, xz: 0, xy: 0, xw: 0, yw: 0, zw: 0, p: 0 }, V4 { x: 0, y: m, z: 0, w: 0 }).w == 0) by (nonlinear_arith);
}

/// The xw-plane instance of the plane-rotation law: the rotor with
/// scalar part `c` and xw bivector part `-s` takes `m` along x to
/// `(c^2 - s^2) m` along x plus `2 c s m` along w.
pub proof fn lemma_plane_rotation_xw(c: int, s: int, m: int)
    ensures
        (apply4(R4 { a: c, yz: 0, xz: 0, xy: 0, xw: -s, yw: 0, zw: 0, p: 0 }, V4 { x: m, y: 0, z: 0, w: 0 }) == V4 { x: (c * c - s * s) * m, y: 0, z: 0, w: 2 * (c * s) * m }),
{
    assert(apply4(R4 { a: c, yz: 0, xz: 0, xy: 0, xw: -s, yw: 0, zw: 0, p: 0 }, V4 { x: m, y: 0, z: 0, w: 0 }).x == (c * c - s * s) * m) by (nonlinear_arith);
    assert(apply4(R4 { a: c, yz: 0, xz: 0, xy: 0, xw: -s, yw: 0, zw: 0, p: 0 }, V4 { x: m, y: 0, z: 0, w: 0 }).y == 0) by (nonlinear_arith);
    assert(apply4(R4 { a: c, yz: 0, xz: 0, xy: 0, xw: -s, yw: 0, zw: 0, p: 0 }, V4 { x: m, y: 0, z: 0, w: 0 }).z == 0) by (nonlinear_arith);
    assert(apply4(R4 { a: c, yz: 0, xz: 0, xy: 0, xw: -s, yw: 0, zw: 0, p: 0 }, V4 { x: m, y: 0, z: 0, w: 0 }).w == 2 * (c * s) * m) by (nonlinear_arith);
}

/// The yw-plane instance of the plane-rotation law: the rotor with
/// scalar part `c` and yw bivector part `-s` takes `m` along y to
/// `(c^2 - s^2) m` along y plus `2 c s m` along w.
pub proof fn lemma_plane_rotation_yw(c: int, s: int, m: int)
    ensures
        (apply4(R4 { a: c, yz: 0, xz: 0, xy: 0, xw: 0, yw: -s, zw: 0, p: 0 }, V4 { x: 0, y: m, z: 0, w: 0 }) == V4 { x: 0, y: (c * c - s * s) * m, z: 0, w: 2 * (c * s) * m }),
{
    assert(apply4(R4 { a: c, yz: 0, xz: 0, xy: 0, xw: 0, yw: -s, zw: 0, p: 0 }, V4 { x: 0, y: m, z: 0, w: 0 }).x == 0) by (nonlinear_arith);
    assert(apply4(R4 { a: c, yz: 0, xz: 0, xy: 0, xw: 0, yw: -s, zw: 0, p: 0 }, V4 { x: 0, y: m, z: 0, w: 0 }).y == (c * c - s * s) * m) by (nonlinear_arith);
    assert(apply4(R4 { a: c, yz: 0, xz: 0, xy: 0, xw: 0, yw: -s, zw: 0, p: 0 }, V4 { x: 0, y: m, z: 0, w: 0 }).z == 0) by (nonlinear_arith);
    assert(apply4(R4 { a: c, yz: 0, xz: 0, xy: 0, xw: 0, yw: -s, zw: 0, p: 0 }, V4 { x: 0, y: m, z: 0, w: 0 }).w == 2 * (c * s) * m) by (nonlinear_arith);
}

/// The zw-plane instance of the plane-rotation law: the rotor with
/// scalar part `c` and zw bivector part `-s` takes `m` along z to
/// `(c^2 - s^2) m` along z plus `2 c s m` along w.
pub proof fn lemma_plane_rotation_zw(c: int, s: int, m: int)
    ensures
        (apply4(R4 { a: c, yz: 0, xz: 0, xy: 0, xw: 0, yw: 0, zw: -s, p: 0 }, V4 { x: 0, y: 0, z: m, w: 0 }) == V4 { x: 0, y: 0, z: (c * c - s * s) * m, w: 2 * (c * s) * m }),
{
    assert(apply4(R4 { a: c, yz: 0, xz: 0, xy: 0, xw: 0, yw: 0, zw: -s, p: 0 }, V4 { x: 0, y: 0, z: m, w: 0 }).x == 0) by (nonlinear_arith);
    assert(apply4(R4 { a: c, yz: 0, xz: 0, xy: 0, xw: 0, yw: 0, zw: -s, p: 0 }, V4 { x: 0, y: 0, z: m, w: 0 }).y == 0) by (nonlinear_arith);
    assert(apply4(R4 { a: c, yz: 0, xz: 0, xy: 0, xw: 0, yw: 0, zw: -s, p: 0 }, V4 { x: 0, y: 0, z: m, w: 0 }).z == (c * c - s * s) * m) by (nonlinear_arith);
    assert(apply4(R4 { a: c, yz: 0, xz: 0, xy: 0, xw: 0, yw: 0, zw: -s, p: 0 }, V4 { x: 0, y: 0, z: m, w: 0 }).w == 2 * (c * s) * m) by (nonlinear_arith);
}

} // verus!
