//! The sphere-tracing kernel and the finite-difference normal estimator,
//! generic over the distance-field capability.
//!
//! Marching is a fixed number of additive steps: at each step the field
//! is sampled at the current point and its (signed) distance is added to
//! the travelled distance; the walk stops early on a hit (sample below
//! `SURF_DIST_FX`) or a miss (travel beyond `MAX_DIST_FX`).  Both
//! non-convergence and overshoot are misses to the caller, which tests
//! the returned distance against `MAX_DIST_FX`.  The result is pinned
//! exactly to the recursive model `spec_march3` / `spec_march4`.

use vstd::prelude::*;
use crate::fixed::{ONE, VEC_LIM, FX_LIM, q1, sat, sqrtf, sat64};
use crate::algebra3::{V3, len2_v3};
use crate::algebra4::{V4, len2_v4};
use crate::vec3::{Fix3, ok3, sat_v, vadd3, vsub3, vscale3, spec_normalized3};
use crate::vec4::{Fix4, ok4, sat_v4, vadd4, vsub4, vscale4, spec_normalized4};
use crate::distance_functions::{DistanceField3, DistanceField4, DIST_LIM};

verus! {

/// Travel distance past which a ray is a miss.
pub const MAX_DIST_FX: i64 = 104857600;

/// Sample distance under which a ray is a hit.
pub const SURF_DIST_FX: i64 = 1049;

/// The fixed number of marching steps.
pub const MAX_STEPS: u64 = 100;

/// The offset used by the finite-difference normal estimator.
pub const NORMAL_EPS_FX: i64 = 10486;

/// The marching model: from travel `d` with `n` steps left, sample at
/// `ro + rd * d`, advance by the sample, and stop on hit or miss.
pub open spec fn spec_march3<T: DistanceField3>(f: T, ro: V3, rd: V3, d: int, n: nat) -> int
    decreases n,
{
    if n == 0 {
        d
    } else {
        let p = vadd3(ro, vscale3(rd, d));
        let ds = f.dist(p);
        let d2 = d + ds;
        if ds < SURF_DIST_FX || d2 > MAX_DIST_FX {
            d2
        } else {
            spec_march3(f, ro, rd, d2, (n - 1) as nat)
        }
    }
}

/// The marching model in four dimensions.
pub open spec fn spec_march4<T: DistanceField4>(f: T, ro: V4, rd: V4, d: int, n: nat) -> int
    decreases n,
{
    if n == 0 {
        d
    } else {
        let p = vadd4(ro, vscale4(rd, d));
        let ds = f.dist(p);
        let d2 = d + ds;
        if ds < SURF_DIST_FX || d2 > MAX_DIST_FX {
            d2
        } else {
            spec_march4(f, ro, rd, d2, (n - 1) as nat)
        }
    }
}

/// Sphere tracing from origin `ro` along direction `rd`: the returned
/// travel distance is exactly the marching model's, and the caller reads
/// a hit from `r <= MAX_DIST_FX`.
pub fn raymarch3<T: DistanceField3>(ro: &Fix3, rd: &Fix3, field: &T) -> (r: i64)
    requires
        field.wf(),
        ok3(ro@),
        ok3(rd@),
    ensures
        r as int == spec_march3(*field, ro@, rd@, 0, MAX_STEPS as nat),
{
    let mut d_origin: i64 = 0;
    let mut i: u64 = 0;
    let mut done: bool = false;
    while i < MAX_STEPS && !done
        invariant
            field.wf(),
            ok3(ro@),
            ok3(rd@),
            0 <= i <= MAX_STEPS,
            -(i as int) * (DIST_LIM as int) <= d_origin as int <= (i as int) * (DIST_LIM
                as int),
            !done ==> spec_march3(*field, ro@, rd@, d_origin as int, (MAX_STEPS - i) as nat)
                == spec_march3(*field, ro@, rd@, 0, MAX_STEPS as nat),
            done ==> d_origin as int == spec_march3(*field, ro@, rd@, 0, MAX_STEPS as nat),
        decreases MAX_STEPS - i,
    {
        proof {
            assert((i as int) * (DIST_LIM as int) <= 100 * (DIST_LIM as int))
                by (nonlinear_arith)
                requires
                    0 <= i <= 100,
            ;
        }
        let p: Fix3 = ro.add(rd.scale(d_origin));
        let d_surface: i64 = field.sdf(&p);
        proof {
            assert(((i + 1) as int) * (DIST_LIM as int) == (i as int) * (DIST_LIM as int)
                + DIST_LIM as int) by (nonlinear_arith);
        }
        d_origin = d_origin + d_surface;
        if d_surface < SURF_DIST_FX || d_origin > MAX_DIST_FX {
            done = true;
        }
        i = i + 1;
    }
    d_origin
}

/// Sphere tracing in four dimensions.
pub fn raymarch4<T: DistanceField4>(ro: &Fix4, rd: &Fix4, field: &T) -> (r: i64)
    requires
        field.wf(),
        ok4(ro@),
        ok4(rd@),
    ensures
        r as int == spec_march4(*field, ro@, rd@, 0, MAX_STEPS as nat),
{
    let mut d_origin: i64 = 0;
    let mut i: u64 = 0;
    let mut done: bool = false;
    while i < MAX_STEPS && !done
        invariant
            field.wf(),
            ok4(ro@),
            ok4(rd@),
            0 <= i <= MAX_STEPS,
            -(i as int) * (DIST_LIM as int) <= d_origin as int <= (i as int) * (DIST_LIM
                as int),
            !done ==> spec_march4(*field, ro@, rd@, d_origin as int, (MAX_STEPS - i) as nat)
                == spec_march4(*field, ro@, rd@, 0, MAX_STEPS as nat),
            done ==> d_origin as int == spec_march4(*field, ro@, rd@, 0, MAX_STEPS as nat),
        decreases MAX_STEPS - i,
    {
        proof {
            assert((i as int) * (DIST_LIM as int) <= 100 * (DIST_LIM as int))
                by (nonlinear_arith)
                requires
                    0 <= i <= 100,
            ;
        }
        let p: Fix4 = ro.add(rd.scale(d_origin));
        let d_surface: i64 = field.sdf(&p);
        proof {
            assert(((i + 1) as int) * (DIST_LIM as int) == (i as int) * (DIST_LIM as int)
                + DIST_LIM as int) by (nonlinear_arith);
        }
        d_origin = d_origin + d_surface;
        if d_surface < SURF_DIST_FX || d_origin > MAX_DIST_FX {
            done = true;
        }
        i = i + 1;
    }
    d_origin
}

/// The normal-estimation model: the field sampled at `p` minus samples a
/// small step back along each axis, normalized; a degenerate zero
/// gradient stays the zero vector.
pub open spec fn spec_normal3<T: DistanceField3>(f: T, p: V3) -> V3 {
    let g = V3 {
        x: sat_v(f.dist(p) - f.dist(vsub3(p, V3 { x: NORMAL_EPS_FX as int, y: 0, z: 0 }))),
        y: sat_v(f.dist(p) - f.dist(vsub3(p, V3 { x: 0, y: NORMAL_EPS_FX as int, z: 0 }))),
        z: sat_v(f.dist(p) - f.dist(vsub3(p, V3 { x: 0, y: 0, z: NORMAL_EPS_FX as int }))),
    };
    spec_normalized3(g)
}

/// The normal-estimation model in four dimensions.
pub open spec fn spec_normal4<T: DistanceField4>(f: T, p: V4) -> V4 {
    let e = NORMAL_EPS_FX as int;
    let g = V4 {
        x: sat_v4(f.dist(p) - f.dist(vsub4(p, V4 { x: e, y: 0, z: 0, w: 0 }))),
        y: sat_v4(f.dist(p) - f.dist(vsub4(p, V4 { x: 0, y: e, z: 0, w: 0 }))),
        z: sat_v4(f.dist(p) - f.dist(vsub4(p, V4 { x: 0, y: 0, z: e, w: 0 }))),
        w: sat_v4(f.dist(p) - f.dist(vsub4(p, V4 { x: 0, y: 0, z: 0, w: e }))),
    };
    spec_normalized4(g)
}

/// The surface normal at `p`, by finite differences of the field,
/// normalized; a zero gradient is returned unchanged, and the caller
/// treats it as "no reliable normal".
pub fn normal3<T: DistanceField3>(p: Fix3, field: &T) -> (r: Fix3)
    requires
        field.wf(),
        ok3(p@),
    ensures
        (r@ == spec_normal3(*field, p@)),
        ok3(r@),
{
    let d0: i64 = field.sdf(&p);
    let dx: i64 = field.sdf(&p.sub(Fix3::new(NORMAL_EPS_FX, 0, 0)));
    let dy: i64 = field.sdf(&p.sub(Fix3::new(0, NORMAL_EPS_FX, 0)));
    let dz: i64 = field.sdf(&p.sub(Fix3::new(0, 0, NORMAL_EPS_FX)));
    let g: Fix3 = Fix3 {
        x: sat64(d0 - dx, VEC_LIM),
        y: sat64(d0 - dy, VEC_LIM),
        z: sat64(d0 - dz, VEC_LIM),
    };
    g.normalized()
}

/// The surface normal in four dimensions.
pub fn normal4<T: DistanceField4>(p: Fix4, field: &T) -> (r: Fix4)
    requires
        field.wf(),
        ok4(p@),
    ensures
        (r@ == spec_normal4(*field, p@)),
        ok4(r@),
{
    let d0: i64 = field.sdf(&p);
    let dx: i64 = field.sdf(&p.sub(Fix4::new(NORMAL_EPS_FX, 0, 0, 0)));
    let dy: i64 = field.sdf(&p.sub(Fix4::new(0, NORMAL_EPS_FX, 0, 0)));
    let dz: i64 = field.sdf(&p.sub(Fix4::new(0, 0, NORMAL_EPS_FX, 0)));
    let dw: i64 = field.sdf(&p.sub(Fix4::new(0, 0, 0, NORMAL_EPS_FX)));
    let g: Fix4 = Fix4 {
        x: sat64(d0 - dx, VEC_LIM),
        y: sat64(d0 - dy, VEC_LIM),
        z: sat64(d0 - dz, VEC_LIM),
        w: sat64(d0 - dw, VEC_LIM),
    };
    g.normalized()
}

} // verus!
