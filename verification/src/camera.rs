//! The rotatable cameras, one per dimension: a pivot point, a local
//! offset, a rotor orientation, and cached derived state (world position,
//! viewport basis vectors, lower-left corner).
//!
//! The cached state is recomputed eagerly and synchronously by every
//! call that changes the rotor, so it is never stale: `consistent3` /
//! `consistent4` state exactly that invariant, and every mutator ensures
//! it.

use vstd::prelude::*;
use crate::fixed::{ONE, VEC_LIM, FX_LIM, tdiv, q1, sat, fx_mul, fx_div, sat64};
use crate::trig::{DEG_TO_RAD_FX, ANGLE_LIM, HALF_PI_FX, sin_fx, cos_fx, spec_sin, spec_cos};
use crate::algebra3::{V3, R3};
use crate::algebra4::{V4, R4};
use crate::vec2::Fix2;
use crate::vec3::{Fix3, ok3, sat_v, vadd3, vsub3, vscale3};
use crate::vec4::{Fix4, ok4, sat_v4, vadd4, vsub4, vscale4};
use crate::rotor3::{Rotor3, okr3, spec_rotate3, spec_compose3};
use crate::rotor4::{Rotor4, okr4, spec_rotate4, spec_compose4};

verus! {

/// Largest field-of-view angle accepted, in fixed-point degrees.
pub const VFOV_LIM: i64 = 377487360;

/// The viewport model: height from the tangent of half the vertical
/// field of view (degrees), width from the aspect ratio, depth the focal
/// length.  A half angle whose cosine is not positive yields a degenerate
/// zero-height viewport rather than dividing by it.
pub open spec fn spec_viewport(aspect_ratio: int, vfov: int, focal_length: int) -> V3 {
    let theta = q1(DEG_TO_RAD_FX * vfov);
    let c = spec_cos(tdiv(theta, 2));
    let s = spec_sin(tdiv(theta, 2));
    let h = if c <= 0 {
        0
    } else {
        sat(tdiv(s * ONE, c), VEC_LIM as int)
    };
    let vh = sat_v(h + h);
    let vw = sat_v(q1(aspect_ratio * vh));
    V3 { x: vw, y: vh, z: focal_length }
}

/// The lower-left-corner model: the position, less the rotated vector of
/// half the viewport width and height at the focal depth.
pub open spec fn spec_llc3(position: V3, rotation: R3, vd: V3) -> V3 {
    vsub3(position, spec_rotate3(rotation, V3 { x: tdiv(vd.x, 2), y: tdiv(vd.y, 2), z: vd.z }))
}

/// The world-position model: the pivot plus the rotated offset.
pub open spec fn spec_cam3_position(pivot: V3, offset: V3, rotation: R3) -> V3 {
    vadd3(pivot, spec_rotate3(rotation, offset))
}

/// The camera in three dimensions.
pub struct Camera3 {
    pub pivot: Fix3,
    pub offset_position: Fix3,
    pub position: Fix3,
    pub rotation: Rotor3,
    pub viewport_dimensions: Fix3,
    pub horizontal: Fix3,
    pub vertical: Fix3,
    pub lower_left_corner: Fix3,
}

/// Whether the camera's own parameters are within the working range.
pub open spec fn cam3_ok(c: Camera3) -> bool {
    &&& ok3(c.pivot@)
    &&& ok3(c.offset_position@)
    &&& okr3(c.rotation@)
    &&& ok3(c.viewport_dimensions@)
}

/// The cache invariant: every derived field equals its model from the
/// pivot, offset, rotor and viewport.
pub open spec fn consistent3(c: Camera3) -> bool {
    &&& c.position@ == spec_cam3_position(c.pivot@, c.offset_position@, c.rotation@)
    &&& c.horizontal@ == spec_rotate3(
        c.rotation@,
        V3 { x: c.viewport_dimensions@.x, y: 0, z: 0 },
    )
    &&& c.vertical@ == spec_rotate3(c.rotation@, V3 { x: 0, y: c.viewport_dimensions@.y, z: 0 })
    &&& c.lower_left_corner@ == spec_llc3(c.position@, c.rotation@, c.viewport_dimensions@)
}

impl Camera3 {
    /// The lower-left corner of the viewport for a given position, rotor
    /// and viewport dimensions.
    pub fn calculate_camera_lower_left_corner(
        position: &Fix3,
        rotation: &Rotor3,
        viewport_dimensions: &Fix3,
    ) -> (r: Fix3)
        requires
            ok3(position@),
            okr3(rotation@),
            ok3(viewport_dimensions@),
        ensures
            (r@ == spec_llc3(position@, rotation@, viewport_dimensions@)),
            ok3(r@),
    {
        let centre_offset: Fix3 = Fix3::new(
            viewport_dimensions.x / 2,
            viewport_dimensions.y / 2,
            viewport_dimensions.z,
        );
        position.sub(rotation.rotate_vector(centre_offset))
    }

    /// Recomputes every cached field from the pivot, offset, rotor and
    /// viewport; all mutators call it before returning.
    pub fn recalculate(&mut self)
        requires
            cam3_ok(*old(self)),
        ensures
            final(self).pivot == old(self).pivot,
            final(self).offset_position == old(self).offset_position,
            final(self).rotation == old(self).rotation,
            final(self).viewport_dimensions == old(self).viewport_dimensions,
            cam3_ok(*final(self)),
            consistent3(*final(self)),
    {
        self.position = self.pivot.add(self.rotation.rotate_vector(self.offset_position));
        self.horizontal = self.rotation.rotate_vector(
            Fix3::new(self.viewport_dimensions.x, 0, 0),
        );
        self.vertical = self.rotation.rotate_vector(Fix3::new(0, self.viewport_dimensions.y, 0));
        self.lower_left_corner = Camera3::calculate_camera_lower_left_corner(
            &self.position,
            &self.rotation,
            &self.viewport_dimensions,
        );
    }

    /// Builds a camera from a pivot, an offset, a rotor, the aspect
    /// ratio, the vertical field of view in fixed-point degrees and the
    /// focal length, with every cached field derived eagerly.
    pub fn new(
        pivot: Fix3,
        offset_position: Fix3,
        rotation: Rotor3,
        aspect_ratio: i64,
        vfov: i64,
        focal_length: i64,
    ) -> (r: Camera3)
        requires
            ok3(pivot@),
            ok3(offset_position@),
            okr3(rotation@),
            -FX_LIM <= aspect_ratio <= FX_LIM,
            -VFOV_LIM <= vfov <= VFOV_LIM,
            -VEC_LIM <= focal_length <= VEC_LIM,
        ensures
            r.pivot == pivot,
            r.offset_position == offset_position,
            r.rotation == rotation,
            (r.viewport_dimensions@ == spec_viewport(
                aspect_ratio as int,
                vfov as int,
                focal_length as int,
            )),
            cam3_ok(r),
            consistent3(r),
    {
        let theta: i64 = fx_mul(DEG_TO_RAD_FX, vfov);
        proof {
            crate::fixed::lemma_tdiv_scaled_bound(
                (DEG_TO_RAD_FX as int) * (vfov as int),
                ONE as int,
                6588400,
            );
            assert(-(ONE as int) * 6588400 <= (DEG_TO_RAD_FX as int) * (vfov as int) <= (
            ONE as int) * 6588400) by (nonlinear_arith)
                requires
                    -VFOV_LIM <= vfov <= VFOV_LIM,
            ;
        }
        let half: i64 = theta / 2;
        let c: i64 = cos_fx(half);
        let s: i64 = sin_fx(half);
        let h: i64 = if c <= 0 {
            0
        } else {
            sat64(fx_div(s, c), VEC_LIM)
        };
        let viewport_height: i64 = sat64(h + h, VEC_LIM);
        let viewport_width: i64 = sat64(fx_mul(aspect_ratio, viewport_height), VEC_LIM);
        let viewport_dimensions: Fix3 = Fix3::new(viewport_width, viewport_height, focal_length);
        let mut cam: Camera3 = Camera3 {
            pivot,
            offset_position,
            position: pivot,
            rotation,
            viewport_dimensions,
            horizontal: pivot,
            vertical: pivot,
            lower_left_corner: pivot,
        };
        cam.recalculate();
        cam
    }

    /// The camera's world position.
    pub fn get_camera_position(&self) -> (r: Fix3)
        ensures
            r == self.position,
    {
        self.position
    }

    /// The un-normalized ray direction through normalized image
    /// coordinates `uv` (0,0 at the lower left): corner plus the scaled
    /// basis vectors, less the position.
    pub fn get_ray_direction(&self, uv: Fix2) -> (r: Fix3)
        requires
            ok3(self.position@),
            ok3(self.horizontal@),
            ok3(self.vertical@),
            ok3(self.lower_left_corner@),
            -FX_LIM <= uv.x <= FX_LIM,
            -FX_LIM <= uv.y <= FX_LIM,
        ensures
            (r@ == vsub3(
                vadd3(
                    vadd3(self.lower_left_corner@, vscale3(self.horizontal@, uv.x as int)),
                    vscale3(self.vertical@, uv.y as int),
                ),
                self.position@,
            )),
            ok3(r@),
    {
        self.lower_left_corner.add(self.horizontal.scale(uv.x)).add(
            self.vertical.scale(uv.y),
        ).sub(self.position)
    }

    /// Replaces the rotor and eagerly recomputes the cached state.
    pub fn set_camera_rotation(&mut self, rotation: Rotor3)
        requires
            cam3_ok(*old(self)),
            okr3(rotation@),
        ensures
            final(self).rotation == rotation,
            final(self).pivot == old(self).pivot,
            final(self).offset_position == old(self).offset_position,
            final(self).viewport_dimensions == old(self).viewport_dimensions,
            cam3_ok(*final(self)),
            consistent3(*final(self)),
    {
        self.rotation = rotation;
        self.recalculate();
    }

    /// Composes a rotor onto the current one and eagerly recomputes the
    /// cached state.
    pub fn rotate_camera(&mut self, rotation: Rotor3)
        requires
            cam3_ok(*old(self)),
            okr3(rotation@),
        ensures
            (final(self).rotation@ == spec_compose3(old(self).rotation@, rotation@)),
            final(self).pivot == old(self).pivot,
            final(self).offset_position == old(self).offset_position,
            final(self).viewport_dimensions == old(self).viewport_dimensions,
            cam3_ok(*final(self)),
            consistent3(*final(self)),
    {
        self.rotation = Rotor3::rotate_rotor(&self.rotation, &rotation);
        self.recalculate();
    }
}

/// The lower-left-corner model in four dimensions: the viewport stays a
/// two-dimensional image plane, embedded at the focal depth.
pub open spec fn spec_llc4(position: V4, rotation: R4, vd: V3) -> V4 {
    vsub4(
        position,
        spec_rotate4(rotation, V4 { x: tdiv(vd.x, 2), y: tdiv(vd.y, 2), z: vd.z, w: 0 }),
    )
}

/// The world-position model in four dimensions.
pub open spec fn spec_cam4_position(pivot: V4, offset: V4, rotation: R4) -> V4 {
    vadd4(pivot, spec_rotate4(rotation, offset))
}

/// The camera in four dimensions: the image plane is still
/// two-dimensional, so the viewport dimensions stay a 3-vector.
pub struct Camera4 {
    pub pivot: Fix4,
    pub offset_position: Fix4,
    pub position: Fix4,
    pub rotation: Rotor4,
    pub viewport_dimensions: Fix3,
    pub horizontal: Fix4,
    pub vertical: Fix4,
    pub lower_left_corner: Fix4,
}

/// Whether the camera's own parameters are within the working range.
pub open spec fn cam4_ok(c: Camera4) -> bool {
    &&& ok4(c.pivot@)
    &&& ok4(c.offset_position@)
    &&& okr4(c.rotation@)
    &&& ok3(c.viewport_dimensions@)
}

/// The cache invariant in four dimensions.
pub open spec fn consistent4(c: Camera4) -> bool {
    &&& c.position@ == spec_cam4_position(c.pivot@, c.offset_position@, c.rotation@)
    &&& c.horizontal@ == spec_rotate4(
        c.rotation@,
        V4 { x: c.viewport_dimensions@.x, y: 0, z: 0, w: 0 },
    )
    &&& c.vertical@ == spec_rotate4(
        c.rotation@,
        V4 { x: 0, y: c.viewport_dimensions@.y, z: 0, w: 0 },
    )
    &&& c.lower_left_corner@ == spec_llc4(c.position@, c.rotation@, c.viewport_dimensions@)
}

impl Camera4 {
    /// The lower-left corner of the viewport for a given position, rotor
    /// and viewport dimensions.
    pub fn calculate_camera_lower_left_corner(
        position: &Fix4,
        rotation: &Rotor4,
        viewport_dimensions: &Fix3,
    ) -> (r: Fix4)
        requires
            ok4(position@),
            okr4(rotation@),
            ok3(viewport_dimensions@),
        ensures
            (r@ == spec_llc4(position@, rotation@, viewport_dimensions@)),
            ok4(r@),
    {
        let centre_offset: Fix4 = Fix4::new(
            viewport_dimensions.x / 2,
            viewport_dimensions.y / 2,
            viewport_dimensions.z,
            0,
        );
        position.sub(rotation.rotate_vector(centre_offset))
    }

    /// Recomputes every cached field from the pivot, offset, rotor and
    /// viewport; all mutators call it before returning.
    pub fn recalculate(&mut self)
        requires
            cam4_ok(*old(self)),
        ensures
            final(self).pivot == old(self).pivot,
            final(self).offset_position == old(self).offset_position,
            final(self).rotation == old(self).rotation,
            final(self).viewport_dimensions == old(self).viewport_dimensions,
            cam4_ok(*final(self)),
            consistent4(*final(self)),
    {
        self.position = self.pivot.add(self.rotation.rotate_vector(self.offset_position));
        self.horizontal = self.rotation.rotate_vector(
            Fix4::new(self.viewport_dimensions.x, 0, 0, 0),
        );
        self.vertical = self.rotation.rotate_vector(
            Fix4::new(0, self.viewport_dimensions.y, 0, 0),
        );
        self.lower_left_corner = Camera4::calculate_camera_lower_left_corner(
            &self.position,
            &self.rotation,
            &self.viewport_dimensions,
        );
    }

    /// Builds a camera from a pivot, an offset, a rotor, the aspect
    /// ratio, the vertical field of view in fixed-point degrees and the
    /// focal length, with every cached field derived eagerly.
    pub fn new(
        pivot: Fix4,
        offset_position: Fix4,
        rotation: Rotor4,
        aspect_ratio: i64,
        vfov: i64,
        focal_length: i64,
    ) -> (r: Camera4)
        requires
            ok4(pivot@),
            ok4(offset_position@),
            okr4(rotation@),
            -FX_LIM <= aspect_ratio <= FX_LIM,
            -VFOV_LIM <= vfov <= VFOV_LIM,
            -VEC_LIM <= focal_length <= VEC_LIM,
        ensures
            r.pivot == pivot,
            r.offset_position == offset_position,
            r.rotation == rotation,
            (r.viewport_dimensions@ == spec_viewport(
                aspect_ratio as int,
                vfov as int,
                focal_length as int,
            )),
            cam4_ok(r),
            consistent4(r),
    {
        let theta: i64 = fx_mul(DEG_TO_RAD_FX, vfov);
        proof {
            crate::fixed::lemma_tdiv_scaled_bound(
                (DEG_TO_RAD_FX as int) * (vfov as int),
                ONE as int,
                6588400,
            );
            assert(-(ONE as int) * 6588400 <= (DEG_TO_RAD_FX as int) * (vfov as int) <= (
            ONE as int) * 6588400) by (nonlinear_arith)
                requires
                    -VFOV_LIM <= vfov <= VFOV_LIM,
            ;
        }
        let half: i64 = theta / 2;
        let c: i64 = cos_fx(half);
        let s: i64 = sin_fx(half);
        let h: i64 = if c <= 0 {
            0
        } else {
            sat64(fx_div(s, c), VEC_LIM)
        };
        let viewport_height: i64 = sat64(h + h, VEC_LIM);
        let viewport_width: i64 = sat64(fx_mul(aspect_ratio, viewport_height), VEC_LIM);
        let viewport_dimensions: Fix3 = Fix3::new(viewport_width, viewport_height, focal_length);
        let mut cam: Camera4 = Camera4 {
            pivot,
            offset_position,
            position: pivot,
            rotation,
            viewport_dimensions,
            horizontal: pivot,
            vertical: pivot,
            lower_left_corner: pivot,
        };
        cam.recalculate();
        cam
    }

    /// The camera's world position.
    pub fn get_camera_position(&self) -> (r: Fix4)
        ensures
            r == self.position,
    {
        self.position
    }

    /// The un-normalized ray direction through normalized image
    /// coordinates `uv` (0,0 at the lower left).
    pub fn get_ray_direction(&self, uv: Fix2) -> (r: Fix4)
        requires
            ok4(self.position@),
            ok4(self.horizontal@),
            ok4(self.vertical@),
            ok4(self.lower_left_corner@),
            -FX_LIM <= uv.x <= FX_LIM,
            -FX_LIM <= uv.y <= FX_LIM,
        ensures
            (r@ == vsub4(
                vadd4(
                    vadd4(self.lower_left_corner@, vscale4(self.horizontal@, uv.x as int)),
                    vscale4(self.vertical@, uv.y as int),
                ),
                self.position@,
            )),
            ok4(r@),
    {
        self.lower_left_corner.add(self.horizontal.scale(uv.x)).add(
            self.vertical.scale(uv.y),
        ).sub(self.position)
    }

    /// Replaces the rotor and eagerly recomputes the cached state.
    pub fn set_camera_rotation(&mut self, rotation: Rotor4)
        requires
            cam4_ok(*old(self)),
            okr4(rotation@),
        ensures
            final(self).rotation == rotation,
            final(self).pivot == old(self).pivot,
            final(self).offset_position == old(self).offset_position,
            final(self).viewport_dimensions == old(self).viewport_dimensions,
            cam4_ok(*final(self)),
            consistent4(*final(self)),
    {
        self.rotation = rotation;
        self.recalculate();
    }

    /// Composes a rotor onto the current one and eagerly recomputes the
    /// cached state.
    pub fn rotate_camera(&mut self, rotation: Rotor4)
        requires
            cam4_ok(*old(self)),
            okr4(rotation@),
        ensures
            (final(self).rotation@ == spec_compose4(old(self).rotation@, rotation@)),
            final(self).pivot == old(self).pivot,
            final(self).offset_position == old(self).offset_position,
            final(self).viewport_dimensions == old(self).viewport_dimensions,
            cam4_ok(*final(self)),
            consistent4(*final(self)),
    {
        self.rotation = Rotor4::rotate_rotor(&self.rotation, &rotation);
        self.recalculate();
    }
}

} // verus!
