//! Signed-distance fields: pure functions from a position to a signed
//! distance, and the scene primitives that carry them.
//!
//! A distance field is a capability: a type with a spec-level distance
//! model and an executable evaluator pinned to it.  The raymarching
//! kernel is generic over that capability.

use vstd::prelude::*;
use crate::fixed::{ONE, VEC_LIM, tdiv, q1, sat, sqrtf, sat64, absi};
use crate::algebra3::{V3, len2_v3};
use crate::algebra4::{V4, len2_v4};
use crate::vec3::{Fix3, ok3, sat_v, vsub3};
use crate::vec4::{Fix4, ok4, sat_v4, vsub4};

verus! {

/// Largest magnitude a signed distance can take.
pub const DIST_LIM: i64 = 0x100000000;

/// The larger of two integers.
pub open spec fn maxi(a: int, b: int) -> int {
    if a >= b {
        a
    } else {
        b
    }
}

/// The smaller of two integers.
pub open spec fn mini(a: int, b: int) -> int {
    if a <= b {
        a
    } else {
        b
    }
}

/// A three-dimensional distance field: a spec-level distance model with
/// an executable evaluator pinned to it.
pub trait DistanceField3 {
    /// Whether the field's own parameters are within the working range.
    spec fn wf(&self) -> bool;

    /// The signed distance from `p` to the surface, at scale `ONE`.
    spec fn dist(&self, p: V3) -> int;

    /// Evaluates the field, exactly as `dist` says.
    fn sdf(&self, p: &Fix3) -> (d: i64)
        requires
            self.wf(),
            ok3(p@),
        ensures
            d as int == self.dist(p@),
            -DIST_LIM <= d <= DIST_LIM,
    ;
}

/// A four-dimensional distance field.
pub trait DistanceField4 {
    /// Whether the field's own parameters are within the working range.
    spec fn wf(&self) -> bool;

    /// The signed distance from `p` to the surface, at scale `ONE`.
    spec fn dist(&self, p: V4) -> int;

    /// Evaluates the field, exactly as `dist` says.
    fn sdf(&self, p: &Fix4) -> (d: i64)
        requires
            self.wf(),
            ok4(p@),
        ensures
            d as int == self.dist(p@),
            -DIST_LIM <= d <= DIST_LIM,
    ;
}

/// The sphere distance model: distance to the centre minus the radius.
pub open spec fn spec_sdf_sphere3(p: V3, centre: V3, radius: int) -> int {
    sqrtf(len2_v3(vsub3(p, centre))) - radius
}

/// The sphere distance model in four dimensions.
pub open spec fn spec_sdf_sphere4(p: V4, centre: V4, radius: int) -> int {
    sqrtf(len2_v4(vsub4(p, centre))) - radius
}

/// The exact sphere distance: the length of the offset from the centre,
/// minus the radius.
pub fn sdf_sphere3(p: Fix3, centre: Fix3, radius: i64) -> (d: i64)
    requires
        ok3(p@),
        ok3(centre@),
        -VEC_LIM <= radius <= VEC_LIM,
    ensures
        d as int == spec_sdf_sphere3(p@, centre@, radius as int),
        -DIST_LIM <= d <= DIST_LIM,
{
    p.sub(centre).length() - radius
}

/// The exact sphere distance in four dimensions.
pub fn sdf_sphere4(p: Fix4, centre: Fix4, radius: i64) -> (d: i64)
    requires
        ok4(p@),
        ok4(centre@),
        -VEC_LIM <= radius <= VEC_LIM,
    ensures
        d as int == spec_sdf_sphere4(p@, centre@, radius as int),
        -DIST_LIM <= d <= DIST_LIM,
{
    p.sub(centre).length() - radius
}

/// The box distance model: componentwise distance past the half extents,
/// the length of its positive part plus the (nonpositive) interior term.
pub open spec fn spec_sdf_box3(p: V3, centre: V3, size: V3) -> int {
    let d = vsub3(p, centre);
    let q = V3 {
        x: sat_v(absi(d.x) - size.x),
        y: sat_v(absi(d.y) - size.y),
        z: sat_v(absi(d.z) - size.z),
    };
    let outside = V3 { x: maxi(q.x, 0), y: maxi(q.y, 0), z: maxi(q.z, 0) };
    sqrtf(len2_v3(outside)) + mini(maxi(q.x, maxi(q.y, q.z)), 0)
}

/// The box distance model in four dimensions.
pub open spec fn spec_sdf_box4(p: V4, centre: V4, size: V4) -> int {
    let d = vsub4(p, centre);
    let q = V4 {
        x: sat_v4(absi(d.x) - size.x),
        y: sat_v4(absi(d.y) - size.y),
        z: sat_v4(absi(d.z) - size.z),
        w: sat_v4(absi(d.w) - size.w),
    };
    let outside = V4 {
        x: maxi(q.x, 0),
        y: maxi(q.y, 0),
        z: maxi(q.z, 0),
        w: maxi(q.w, 0),
    };
    sqrtf(len2_v4(outside)) + mini(maxi(q.x, maxi(q.y, maxi(q.z, q.w))), 0)
}

/// The larger of two `i64` values.
fn max64(a: i64, b: i64) -> (r: i64)
    ensures
        r as int == maxi(a as int, b as int),
{
    if a >= b {
        a
    } else {
        b
    }
}

/// The magnitude of an in-range `i64`.
fn abs64(a: i64) -> (r: i64)
    requires
        -0x7fffffffffffffff <= a,
    ensures
        r as int == absi(a as int),
{
    if a >= 0 {
        a
    } else {
        -a
    }
}

/// The standard exact box distance: accurate outside, a cheap bound
/// inside.
pub fn sdf_box3(p: Fix3, centre: Fix3, size: Fix3) -> (d: i64)
    requires
        ok3(p@),
        ok3(centre@),
        ok3(size@),
    ensures
        d as int == spec_sdf_box3(p@, centre@, size@),
        -DIST_LIM <= d <= DIST_LIM,
{
    let dv: Fix3 = p.sub(centre);
    let q: Fix3 = Fix3 {
        x: sat64(abs64(dv.x) - size.x, VEC_LIM),
        y: sat64(abs64(dv.y) - size.y, VEC_LIM),
        z: sat64(abs64(dv.z) - size.z, VEC_LIM),
    };
    let outside: Fix3 = Fix3 {
        x: max64(q.x, 0),
        y: max64(q.y, 0),
        z: max64(q.z, 0),
    };
    let inner: i64 = max64(q.x, max64(q.y, q.z));
    let inner_clamped: i64 = if inner <= 0 {
        inner
    } else {
        0
    };
    outside.length() + inner_clamped
}

/// The standard exact box distance in four dimensions.
pub fn sdf_box4(p: Fix4, centre: Fix4, size: Fix4) -> (d: i64)
    requires
        ok4(p@),
        ok4(centre@),
        ok4(size@),
    ensures
        d as int == spec_sdf_box4(p@, centre@, size@),
        -DIST_LIM <= d <= DIST_LIM,
{
    let dv: Fix4 = p.sub(centre);
    let q: Fix4 = Fix4 {
        x: sat64(abs64(dv.x) - size.x, VEC_LIM),
        y: sat64(abs64(dv.y) - size.y, VEC_LIM),
        z: sat64(abs64(dv.z) - size.z, VEC_LIM),
        w: sat64(abs64(dv.w) - size.w, VEC_LIM),
    };
    let outside: Fix4 = Fix4 {
        x: max64(q.x, 0),
        y: max64(q.y, 0),
        z: max64(q.z, 0),
        w: max64(q.w, 0),
    };
    let inner: i64 = max64(q.x, max64(q.y, max64(q.z, q.w)));
    let inner_clamped: i64 = if inner <= 0 {
        inner
    } else {
        0
    };
    outside.length() + inner_clamped
}

/// A sphere in three dimensions.
pub struct Sphere {
    pub centre: Fix3,
    pub radius: i64,
}

impl Sphere {
    /// Builds the sphere with the given centre and radius.
    pub fn new(centre: Fix3, radius: i64) -> (r: Sphere)
        ensures
            r.centre == centre,
            r.radius == radius,
    {
        Sphere { centre, radius }
    }
}

impl DistanceField3 for Sphere {
    open spec fn wf(&self) -> bool {
        ok3(self.centre@) && -VEC_LIM <= self.radius <= VEC_LIM
    }

    open spec fn dist(&self, p: V3) -> int {
        spec_sdf_sphere3(p, self.centre@, self.radius as int)
    }

    fn sdf(&self, p: &Fix3) -> (d: i64) {
        sdf_sphere3(*p, self.centre, self.radius)
    }
}

/// A box in three dimensions, given by centre and half extents.
pub struct Box3 {
    pub centre: Fix3,
    pub size: Fix3,
}

impl Box3 {
    /// Builds the box with the given centre and half extents.
    pub fn new(centre: Fix3, size: Fix3) -> (r: Box3)
        ensures
            r.centre == centre,
            r.size == size,
    {
        Box3 { centre, size }
    }
}

impl DistanceField3 for Box3 {
    open spec fn wf(&self) -> bool {
        ok3(self.centre@) && ok3(self.size@)
    }

    open spec fn dist(&self, p: V3) -> int {
        spec_sdf_box3(p, self.centre@, self.size@)
    }

    fn sdf(&self, p: &Fix3) -> (d: i64) {
        sdf_box3(*p, self.centre, self.size)
    }
}

/// A sphere in four dimensions.
pub struct Sphere4 {
    pub centre: Fix4,
    pub radius: i64,
}

impl Sphere4 {
    /// Builds the sphere with the given centre and radius.
    pub fn new(centre: Fix4, radius: i64) -> (r: Sphere4)
        ensures
            r.centre == centre,
            r.radius == radius,
    {
        Sphere4 { centre, radius }
    }
}

impl DistanceField4 for Sphere4 {
    open spec fn wf(&self) -> bool {
        ok4(self.centre@) && -VEC_LIM <= self.radius <= VEC_LIM
    }

    open spec fn dist(&self, p: V4) -> int {
        spec_sdf_sphere4(p, self.centre@, self.radius as int)
    }

    fn sdf(&self, p: &Fix4) -> (d: i64) {
        sdf_sphere4(*p, self.centre, self.radius)
    }
}

/// A box in four dimensions, given by centre and half extents.
pub struct Box4 {
    pub centre: Fix4,
    pub size: Fix4,
}

impl Box4 {
    /// Builds the box with the given centre and half extents.
    pub fn new(centre: Fix4, size: Fix4) -> (r: Box4)
        ensures
            r.centre == centre,
            r.size == size,
    {
        Box4 { centre, size }
    }
}

impl DistanceField4 for Box4 {
    open spec fn wf(&self) -> bool {
        ok4(self.centre@) && ok4(self.size@)
    }

    open spec fn dist(&self, p: V4) -> int {
        spec_sdf_box4(p, self.centre@, self.size@)
    }

    fn sdf(&self, p: &Fix4) -> (d: i64) {
        sdf_box4(*p, self.centre, self.size)
    }
}

} // verus!
