use raymarch::fixed::ONE;
use raymarch::trig::PI_FX;
use raymarch::vec3::Fix3;
use raymarch::bivec3::Bivector3;
use raymarch::rotor3::Rotor3;

fn close(a: i64, b: i64, tol: i64) -> bool {
    (a - b).abs() < tol
}

fn vec3_close(a: Fix3, b: Fix3, tol: i64) -> bool {
    close(a.x, b.x, tol) && close(a.y, b.y, tol) && close(a.z, b.z, tol)
}

fn rotor3_close(a: Rotor3, b: Rotor3, tol: i64) -> bool {
    close(a.a, b.a, tol) && close(a.bv.yz, b.bv.yz, tol) && close(a.bv.xz, b.bv.xz, tol)
        && close(a.bv.xy, b.bv.xy, tol)
}

fn rv3(v: &mut Fix3, e1: Fix3, e2: Fix3, angle: i64) {
    let bv = Fix3::wedge(e1, e2);
    let r = Rotor3::bivector_angle(&bv, angle);
    *v = r.rotate_vector(*v);
}

#[test]
fn rotor3_tests_geometric_product() {
    // Rotors have double coverage, so the rotation is twice the rotation
    // from e1 to e2.
    let e1 = Fix3::new(ONE, 0, 0);
    let e2 = Fix3::new(ONE, ONE, 0).normalized();

    let geo_prod = Rotor3::geometric_product(e2, e1);

    let v = e1;
    let expected = Fix3::new(0, ONE, 0);

    assert!(vec3_close(geo_prod.rotate_vector(v), expected, 64));
}

#[test]
fn rotor3_tests_single_planar_rotations() {
    let a = PI_FX / 2;

    // XY rotation
    let mut e1 = Fix3::new(ONE, 0, 0);
    let mut e2 = Fix3::new(0, ONE, 0);
    let mut v = e1;
    rv3(&mut v, e1, e2, a);
    assert!(vec3_close(v, e2, 512));

    // XZ rotation
    e1 = Fix3::new(ONE, 0, 0);
    e2 = Fix3::new(0, 0, ONE);
    v = e1;
    rv3(&mut v, e1, e2, a);
    assert!(vec3_close(v, e2, 512));

    // YZ rotation
    e1 = Fix3::new(0, ONE, 0);
    e2 = Fix3::new(0, 0, ONE);
    v = e1;
    rv3(&mut v, e1, e2, a);
    assert!(vec3_close(v, e2, 512));
}

#[test]
fn rotor3_tests_zero_rotation() {
    let a = PI_FX / 2;

    let e1 = Fix3::new(ONE, 0, 0);
    let e2 = e1;

    let mut v = Fix3::new(ONE, ONE, ONE);
    let expected = v;

    rv3(&mut v, e1, e2, a);
    assert_eq!(v, expected);
}

#[test]
fn rotor3_tests_reverse() {
    let e1 = Fix3::new(ONE, 0, 0);
    let e2 = Fix3::new(0, ONE, 0);

    let r = Rotor3::geometric_product(e1, e2);

    let v1 = e1;
    let mut v2 = r.rotate_vector(v1);

    assert!(!vec3_close(v1, v2, 64));

    let r_reverse = Rotor3::reverse(&r);

    assert!(rotor3_close(Rotor3::rotate_rotor(&r, &r_reverse), Rotor3::identity(), 8));

    v2 = r_reverse.rotate_vector(v2);

    assert!(vec3_close(v1, v2, 64));
}

#[test]
fn rotor3_tests_compounded_rotation() {
    let a = PI_FX / 2;

    // Single rotation off axes
    let mut e1 = Fix3::new(0, 0, ONE);
    let mut e2 = Fix3::new(ONE, ONE, 0).normalized();

    let mut bv = Fix3::wedge(e1, e2);
    let mut r = Rotor3::bivector_angle(&bv, a);

    let mut v = e1;
    let expected = e2;

    v = r.rotate_vector(v);
    assert!(vec3_close(v, expected, 512));

    // Two combined rotations
    v = Fix3::new(0, 0, ONE);
    r = Rotor3::identity();

    e1 = Fix3::new(0, 0, ONE);
    e2 = Fix3::new(0, ONE, 0);
    bv = Fix3::wedge(e1, e2);
    r = Rotor3::rotate_rotor(&r, &Rotor3::bivector_angle(&bv, a));

    e1 = Fix3::new(0, 0, ONE);
    e2 = Fix3::new(ONE, 0, 0);
    bv = Fix3::wedge(e1, e2);
    r = Rotor3::rotate_rotor(&r, &Rotor3::bivector_angle(&bv, a));

    let expected2 = Fix3::new(ONE, 0, 0);

    v = r.rotate_vector(v);
    assert!(vec3_close(v, expected2, 1024));
}

#[test]
fn rotor3_tests_single_rotation_angle() {
    // 90 degrees
    let mut expected_angle = PI_FX / 2;
    let mut e1 = Fix3::new(ONE, 0, 0);
    let mut e2 = Fix3::new(0, ONE, 0);
    let mut bv = Fix3::wedge(e1, e2);
    let mut r = Rotor3::bivector_angle(&bv, expected_angle);
    assert!(close(expected_angle, r.angle(), 2100));

    // 45 degrees
    expected_angle = PI_FX / 4;
    e1 = Fix3::new(0, ONE, 0);
    e2 = Fix3::new(0, 0, ONE);
    bv = Fix3::wedge(e1, e2);
    r = Rotor3::bivector_angle(&bv, expected_angle);
    assert!(close(expected_angle, r.angle(), 2100));

    // 180 degrees
    expected_angle = PI_FX;
    e1 = Fix3::new(ONE, 0, 0);
    e2 = Fix3::new(0, 0, ONE);
    bv = Fix3::wedge(e1, e2);
    r = Rotor3::bivector_angle(&bv, expected_angle);
    assert!(close(expected_angle, r.angle(), 2100));

    // 0 degrees
    expected_angle = 0;
    e1 = Fix3::new(0, ONE, 0);
    e2 = Fix3::new(0, 0, ONE);
    bv = Fix3::wedge(e1, e2);
    r = Rotor3::bivector_angle(&bv, expected_angle);
    assert!(close(expected_angle, r.angle(), 2100));
}

#[test]
fn rotor3_tests_combined_rotation_angle() {
    let a = PI_FX / 2;

    // Single rotation off axes
    let mut e1 = Fix3::new(0, 0, ONE);
    let mut e2 = Fix3::new(ONE, ONE, 0).normalized();
    let mut bv = Fix3::wedge(e1, e2);

    let mut expected_angle = a;
    let mut r = Rotor3::bivector_angle(&bv, a);
    assert!(close(expected_angle, r.angle(), 2100));

    // Two combined rotations
    r = Rotor3::identity();

    e1 = Fix3::new(0, 0, ONE);
    e2 = Fix3::new(0, ONE, 0);
    bv = Fix3::wedge(e1, e2);
    r = Rotor3::rotate_rotor(&r, &Rotor3::bivector_angle(&bv, a));

    e1 = Fix3::new(0, 0, ONE);
    e2 = Fix3::new(ONE, 0, 0);
    bv = Fix3::wedge(e1, e2);
    r = Rotor3::rotate_rotor(&r, &Rotor3::bivector_angle(&bv, a));

    expected_angle = a;
    r = Rotor3::bivector_angle(&bv, a);
    assert!(close(expected_angle, r.angle(), 2100));
}

#[test]
fn rotor3_tests_slerp() {
    let e1 = Fix3::new(ONE, 0, 0);
    let e2 = Fix3::new(0, 0, ONE);

    let r_a = Rotor3::identity();

    let bv = Fix3::wedge(e1, e2);
    let r_b = Rotor3::bivector_angle(&bv, PI_FX / 2);

    // A vector rotated from x toward z is half way between at t = 1/2.
    let mut r_slerp = Rotor3::slerp(&r_a, &r_b, ONE / 2);

    let v = Fix3::new(ONE, 0, 0);
    let expected = Fix3::new(ONE, 0, ONE).normalized();

    assert!(vec3_close(r_slerp.rotate_vector(v), expected, 1024));

    // t = 0 and t = 1 reproduce either endpoint.
    r_slerp = Rotor3::slerp(&r_a, &r_b, 0);
    assert!(rotor3_close(r_slerp, r_a, 8));

    r_slerp = Rotor3::slerp(&r_a, &r_b, ONE);
    assert!(rotor3_close(r_slerp, r_b, 8));
}
