use raymarch::fixed::ONE;
use raymarch::trig::PI_FX;
use raymarch::vec4::Fix4;
use raymarch::bivec4::Bivector4;
use raymarch::rotor4::Rotor4;

fn close(a: i64, b: i64, tol: i64) -> bool {
    (a - b).abs() < tol
}

fn vec4_close(a: Fix4, b: Fix4, tol: i64) -> bool {
    close(a.x, b.x, tol) && close(a.y, b.y, tol) && close(a.z, b.z, tol) && close(a.w, b.w, tol)
}

fn rotor4_close(a: Rotor4, b: Rotor4, tol: i64) -> bool {
    close(a.a, b.a, tol) && close(a.bv.yz, b.bv.yz, tol) && close(a.bv.xz, b.bv.xz, tol)
        && close(a.bv.xy, b.bv.xy, tol) && close(a.bv.xw, b.bv.xw, tol)
        && close(a.bv.yw, b.bv.yw, tol) && close(a.bv.zw, b.bv.zw, tol)
        && close(a.p, b.p, tol)
}

fn rv4(v: &mut Fix4, e1: Fix4, e2: Fix4, angle: i64) {
    let bv = Fix4::wedge(e1, e2);
    let r = Rotor4::bivector_angle(&bv, angle);
    *v = r.rotate_vector(*v);
}

#[test]
fn rotor4_tests_geometric_product() {
    // Rotors have double coverage, so the rotation is twice the rotation
    // from e1 to e2.
    let e1 = Fix4::new(ONE, 0, 0, 0);
    let e2 = Fix4::new(ONE, ONE, 0, 0).normalized();

    let geo_prod = Rotor4::geometric_product(e2, e1);

    let v = e1;
    let expected = Fix4::new(0, ONE, 0, 0);

    assert!(vec4_close(geo_prod.rotate_vector(v), expected, 64));
}

#[test]
fn rotor4_tests_single_planar_rotations() {
    let a = PI_FX / 2;

    // XY rotation
    let mut e1 = Fix4::new(ONE, 0, 0, 0);
    let mut e2 = Fix4::new(0, ONE, 0, 0);
    let mut v = e1;
    rv4(&mut v, e1, e2, a);
    assert!(vec4_close(v, e2, 512));

    // XZ rotation
    e1 = Fix4::new(ONE, 0, 0, 0);
    e2 = Fix4::new(0, 0, ONE, 0);
    v = e1;
    rv4(&mut v, e1, e2, a);
    assert!(vec4_close(v, e2, 512));

    // YZ rotation
    e1 = Fix4::new(0, ONE, 0, 0);
    e2 = Fix4::new(0, 0, ONE, 0);
    v = e1;
    rv4(&mut v, e1, e2, a);
    assert!(vec4_close(v, e2, 512));

    // XW rotation
    e1 = Fix4::new(ONE, 0, 0, 0);
    e2 = Fix4::new(0, 0, 0, ONE);
    v = e1;
    rv4(&mut v, e1, e2, a);
    assert!(vec4_close(v, e2, 512));

    // YW rotation
    e1 = Fix4::new(0, ONE, 0, 0);
    e2 = Fix4::new(0, 0, 0, ONE);
    v = e1;
    rv4(&mut v, e1, e2, a);
    assert!(vec4_close(v, e2, 512));

    // ZW rotation
    e1 = Fix4::new(0, 0, ONE, 0);
    e2 = Fix4::new(0, 0, 0, ONE);
    v = e1;
    rv4(&mut v, e1, e2, a);
    assert!(vec4_close(v, e2, 512));
}

#[test]
fn rotor4_tests_zero_rotation() {
    let a = PI_FX / 2;

    let e1 = Fix4::new(ONE, 0, 0, 0);
    let e2 = e1;

    let mut v = Fix4::new(ONE, ONE, ONE, ONE);
    let expected = v;

    rv4(&mut v, e1, e2, a);
    assert_eq!(v, expected);
}

#[test]
fn rotor4_tests_reverse() {
    let e1 = Fix4::new(ONE, 0, 0, 0);
    let e2 = Fix4::new(0, ONE, 0, 0);

    let r = Rotor4::geometric_product(e1, e2);

    let v1 = e1;
    let mut v2 = r.rotate_vector(v1);

    assert!(!vec4_close(v1, v2, 64));

    let r_reverse = Rotor4::reverse(&r);

    assert!(rotor4_close(Rotor4::rotate_rotor(&r, &r_reverse), Rotor4::identity(), 8));

    v2 = r_reverse.rotate_vector(v2);

    assert!(vec4_close(v1, v2, 64));
}

#[test]
fn rotor4_tests_compounded_rotation() {
    let a = PI_FX / 2;

    // Single rotation off axes
    let mut e1 = Fix4::new(0, 0, ONE, 0);
    let mut e2 = Fix4::new(ONE, ONE, 0, 0).normalized();

    let mut bv = Fix4::wedge(e1, e2);
    let mut r = Rotor4::bivector_angle(&bv, a);

    let mut v = e1;
    let expected = e2;

    v = r.rotate_vector(v);
    assert!(vec4_close(v, expected, 512));

    // Two combined rotations
    v = Fix4::new(0, 0, ONE, 0);
    r = Rotor4::identity();

    e1 = Fix4::new(0, 0, ONE, 0);
    e2 = Fix4::new(0, ONE, 0, 0);
    bv = Fix4::wedge(e1, e2);
    r = Rotor4::rotate_rotor(&r, &Rotor4::bivector_angle(&bv, a));

    e1 = Fix4::new(0, 0, ONE, 0);
    e2 = Fix4::new(ONE, 0, 0, 0);
    bv = Fix4::wedge(e1, e2);
    r = Rotor4::rotate_rotor(&r, &Rotor4::bivector_angle(&bv, a));

    let expected2 = Fix4::new(ONE, 0, 0, 0);

    v = r.rotate_vector(v);
    assert!(vec4_close(v, expected2, 1024));
}

#[test]
fn rotor4_tests_single_rotation_angle() {
    // 90 degrees
    let mut expected_angle = PI_FX / 2;
    let mut e1 = Fix4::new(ONE, 0, 0, 0);
    let mut e2 = Fix4::new(0, ONE, 0, 0);
    let mut bv = Fix4::wedge(e1, e2);
    let mut r = Rotor4::bivector_angle(&bv, expected_angle);
    assert!(close(expected_angle, r.angle(), 2100));

    // 45 degrees
    expected_angle = PI_FX / 4;
    e1 = Fix4::new(0, ONE, 0, 0);
    e2 = Fix4::new(0, 0, ONE, 0);
    bv = Fix4::wedge(e1, e2);
    r = Rotor4::bivector_angle(&bv, expected_angle);
    assert!(close(expected_angle, r.angle(), 2100));

    // 180 degrees
    expected_angle = PI_FX;
    e1 = Fix4::new(ONE, 0, 0, 0);
    e2 = Fix4::new(0, 0, ONE, 0);
    bv = Fix4::wedge(e1, e2);
    r = Rotor4::bivector_angle(&bv, expected_angle);
    assert!(close(expected_angle, r.angle(), 2100));

    // 0 degrees
    expected_angle = 0;
    e1 = Fix4::new(0, ONE, 0, 0);
    e2 = Fix4::new(0, 0, ONE, 0);
    bv = Fix4::wedge(e1, e2);
    r = Rotor4::bivector_angle(&bv, expected_angle);
    assert!(close(expected_angle, r.angle(), 2100));
}

#[test]
fn rotor4_tests_combined_rotation_angle() {
    let a = PI_FX / 2;

    // Single rotation off axes
    let mut e1 = Fix4::new(0, 0, ONE, 0);
    let mut e2 = Fix4::new(ONE, 0, 0, ONE).normalized();
    let mut bv = Fix4::wedge(e1, e2);

    let mut expected_angle = a;
    let mut r = Rotor4::bivector_angle(&bv, a);
    assert!(close(expected_angle, r.angle(), 2100));

    // Two combined rotations
    r = Rotor4::identity();

    e1 = Fix4::new(0, 0, ONE, 0);
    e2 = Fix4::new(0, ONE, 0, 0);
    bv = Fix4::wedge(e1, e2);
    r = Rotor4::rotate_rotor(&r, &Rotor4::bivector_angle(&bv, a));

    e1 = Fix4::new(0, 0, 0, ONE);
    e2 = Fix4::new(ONE, 0, 0, 0);
    bv = Fix4::wedge(e1, e2);
    r = Rotor4::rotate_rotor(&r, &Rotor4::bivector_angle(&bv, a));

    expected_angle = a;
    r = Rotor4::bivector_angle(&bv, a);
    assert!(close(expected_angle, r.angle(), 2100));
}

#[test]
fn rotor4_tests_slerp() {
    let e1 = Fix4::new(ONE, 0, 0, 0);
    let e2 = Fix4::new(0, 0, ONE, 0);

    let r_a = Rotor4::identity();

    let bv = Fix4::wedge(e1, e2);
    let r_b = Rotor4::bivector_angle(&bv, PI_FX / 2);

    // A vector rotated from x toward z is half way between at t = 1/2.
    let mut r_slerp = Rotor4::slerp(&r_a, &r_b, ONE / 2);

    let v = Fix4::new(ONE, 0, 0, 0);
    let expected = Fix4::new(ONE, 0, ONE, 0).normalized();

    assert!(vec4_close(r_slerp.rotate_vector(v), expected, 1024));

    // t = 0 and t = 1 reproduce either endpoint.
    r_slerp = Rotor4::slerp(&r_a, &r_b, 0);
    assert!(rotor4_close(r_slerp, r_a, 8));

    r_slerp = Rotor4::slerp(&r_a, &r_b, ONE);
    assert!(rotor4_close(r_slerp, r_b, 8));
}
