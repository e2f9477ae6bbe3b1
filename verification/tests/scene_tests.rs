use raymarch::fixed::ONE;
use raymarch::vec2::Fix2;
use raymarch::vec3::Fix3;
use raymarch::vec4::Fix4;
use raymarch::rotor3::Rotor3;
use raymarch::rotor4::Rotor4;
use raymarch::camera::{Camera3, Camera4};
use raymarch::distance_functions::{sdf_sphere3, sdf_box3, sdf_box4, Sphere, Sphere4, Box3};
use raymarch::raymarching::{raymarch3, raymarch4, normal3, normal4, MAX_DIST_FX, SURF_DIST_FX};

fn close(a: i64, b: i64, tol: i64) -> bool {
    (a - b).abs() < tol
}

#[test]
fn sphere_distances() {
    let centre = Fix3::new(0, 0, 0);
    // Two units from a unit sphere's centre: one unit from its surface.
    assert_eq!(sdf_sphere3(Fix3::new(0, 0, 2 * ONE), centre, ONE), ONE);
    // On the surface: zero.
    assert_eq!(sdf_sphere3(Fix3::new(ONE, 0, 0), centre, ONE), 0);
    // Inside: negative.
    assert!(sdf_sphere3(Fix3::new(0, 0, 0), centre, ONE) < 0);
}

#[test]
fn box_distances() {
    let centre = Fix3::new(0, 0, 0);
    let size = Fix3::new(ONE, ONE, ONE);
    // One unit outside a face.
    assert_eq!(sdf_box3(Fix3::new(2 * ONE, 0, 0), centre, size), ONE);
    // At a corner, distance is sqrt(3) to the corner point.
    assert!(close(sdf_box3(Fix3::new(2 * ONE, 2 * ONE, 2 * ONE), centre, size), 1816187, 8));
    // Inside: negative.
    assert!(sdf_box3(Fix3::new(0, 0, 0), centre, size) < 0);
    // The four-dimensional box agrees on a face.
    let c4 = Fix4::new(0, 0, 0, 0);
    let s4 = Fix4::new(ONE, ONE, ONE, ONE);
    assert_eq!(sdf_box4(Fix4::new(0, 0, 0, 2 * ONE), c4, s4), ONE);
}

#[test]
fn raymarch_hits_unit_sphere() {
    // From (0,0,2) looking along -z at a unit sphere: hit at distance 1.
    let sphere = Sphere::new(Fix3::new(0, 0, 0), ONE);
    let ro = Fix3::new(0, 0, 2 * ONE);
    let rd = Fix3::new(0, 0, -ONE);
    let d = raymarch3(&ro, &rd, &sphere);
    assert!(close(d, ONE, 2 * SURF_DIST_FX));
    assert!(d <= MAX_DIST_FX);
}

#[test]
fn raymarch_misses_tangent_ray() {
    // From (0,0,2) looking along +y: the ray never meets the sphere.
    let sphere = Sphere::new(Fix3::new(0, 0, 0), ONE);
    let ro = Fix3::new(0, 0, 2 * ONE);
    let rd = Fix3::new(0, ONE, 0);
    let d = raymarch3(&ro, &rd, &sphere);
    assert!(d > MAX_DIST_FX);
}

#[test]
fn raymarch_four_dimensional_sphere() {
    let sphere = Sphere4::new(Fix4::new(0, 0, 0, 0), ONE);
    let ro = Fix4::new(0, 0, 2 * ONE, 0);
    let rd = Fix4::new(0, 0, -ONE, 0);
    let d = raymarch4(&ro, &rd, &sphere);
    assert!(close(d, ONE, 2 * SURF_DIST_FX));
    let rd_miss = Fix4::new(0, 0, 0, ONE);
    assert!(raymarch4(&ro, &rd_miss, &sphere) > MAX_DIST_FX);
}

#[test]
fn normal_points_outward_on_sphere() {
    // The estimated normal at (1,0,0) on the unit sphere is close to the
    // x axis, within finite-difference tolerance.
    let sphere = Sphere::new(Fix3::new(0, 0, 0), ONE);
    let n = normal3(Fix3::new(ONE, 0, 0), &sphere);
    assert!(close(n.x, ONE, 8192));
    assert!(close(n.y, 0, 8192));
    assert!(close(n.z, 0, 8192));

    let sphere4 = Sphere4::new(Fix4::new(0, 0, 0, 0), ONE);
    let n4 = normal4(Fix4::new(ONE, 0, 0, 0), &sphere4);
    assert!(close(n4.x, ONE, 8192));
    assert!(close(n4.y, 0, 8192) && close(n4.z, 0, 8192) && close(n4.w, 0, 8192));
}

#[test]
fn degenerate_normal_is_zero() {
    // Half a sampling step inside a cube along each axis, the backward
    // difference straddles the symmetry plane and every sample agrees:
    // the gradient is the zero vector and is returned unnormalized.
    let cube = Box3::new(Fix3::new(0, 0, 0), Fix3::new(ONE, ONE, ONE));
    let h = raymarch::raymarching::NORMAL_EPS_FX / 2;
    let n = normal3(Fix3::new(h, h, h), &cube);
    assert_eq!((n.x, n.y, n.z), (0, 0, 0));
}

#[test]
fn camera_rays() {
    // The scene-layer pose: pivot at the origin, the camera four units
    // back, identity orientation, 16:9, 60 degrees, focal length one.
    let cam = Camera3::new(
        Fix3::new(0, 0, 0),
        Fix3::new(0, 0, 4 * ONE),
        Rotor3::identity(),
        16 * ONE / 9,
        60 * ONE,
        ONE,
    );
    assert_eq!(cam.get_camera_position(), Fix3::new(0, 0, 4 * ONE));
    // Through the image centre the ray goes straight down the axis.
    let centre_ray = cam.get_ray_direction(Fix2::new(ONE / 2, ONE / 2));
    assert!(close(centre_ray.x, 0, 64));
    assert!(close(centre_ray.y, 0, 64));
    assert!(close(centre_ray.z, -ONE, 64));
    // The lower-left ray tilts down and to the left.
    let corner_ray = cam.get_ray_direction(Fix2::new(0, 0));
    assert!(corner_ray.x < 0 && corner_ray.y < 0);
    assert!(close(corner_ray.z, -ONE, 64));
}

#[test]
fn camera_rotation_recomputes_state() {
    let mut cam = Camera3::new(
        Fix3::new(0, 0, 0),
        Fix3::new(0, 0, 4 * ONE),
        Rotor3::identity(),
        16 * ONE / 9,
        60 * ONE,
        ONE,
    );
    // A quarter turn in the xz plane swings the camera onto the x axis.
    let bv = Fix3::wedge(Fix3::new(ONE, 0, 0), Fix3::new(0, 0, ONE));
    let r = Rotor3::bivector_angle(&bv, raymarch::trig::PI_FX / 2);
    cam.rotate_camera(r);
    let p = cam.get_camera_position();
    assert!(close(p.x, 4 * ONE, 8192) || close(p.x, -4 * ONE, 8192));
    assert!(close(p.y, 0, 8192));
    assert!(close(p.z, 0, 8192));
    // Setting the rotation back restores the original pose.
    cam.set_camera_rotation(Rotor3::identity());
    assert_eq!(cam.get_camera_position(), Fix3::new(0, 0, 4 * ONE));
}

#[test]
fn camera_four_dimensional() {
    let mut cam = Camera4::new(
        Fix4::new(0, 0, 0, 0),
        Fix4::new(0, 0, 4 * ONE, 0),
        Rotor4::identity(),
        16 * ONE / 9,
        60 * ONE,
        ONE,
    );
    assert_eq!(cam.get_camera_position(), Fix4::new(0, 0, 4 * ONE, 0));
    let centre_ray = cam.get_ray_direction(Fix2::new(ONE / 2, ONE / 2));
    assert!(close(centre_ray.z, -ONE, 64));
    assert!(close(centre_ray.w, 0, 64));
    // A quarter turn in the zw plane moves the camera into the w axis.
    let bv = Fix4::wedge(Fix4::new(0, 0, ONE, 0), Fix4::new(0, 0, 0, ONE));
    let r = Rotor4::bivector_angle(&bv, raymarch::trig::PI_FX / 2);
    cam.rotate_camera(r);
    let p = cam.get_camera_position();
    assert!(close(p.z, 0, 8192));
    assert!(close(p.w, 4 * ONE, 8192) || close(p.w, -4 * ONE, 8192));
}
