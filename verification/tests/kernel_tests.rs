use raymarch::fixed::{ONE, clamp, approx_equal, fx_mul, fx_div, isqrt};
use raymarch::trig::{PI_FX, HALF_PI_FX, sin_fx, cos_fx, acos_fx};
use raymarch::vec3::Fix3;
use raymarch::vec4::Fix4;
use raymarch::bivec3::Bivector3;
use raymarch::rotor3::Rotor3;
use raymarch::rotor4::Rotor4;
use raymarch::bivec4::Bivector4;

fn close(a: i64, b: i64, tol: i64) -> bool {
    (a - b).abs() < tol
}

#[test]
fn fixed_point_arithmetic() {
    // 1.5 * 2 == 3, exactly representable.
    assert_eq!(fx_mul(3 * ONE / 2, 2 * ONE), 3 * ONE);
    // 1 / 4 == 0.25.
    assert_eq!(fx_div(ONE, 4 * ONE), ONE / 4);
    // Truncation rounds toward zero on both signs.
    assert_eq!(fx_mul(-3, 3), 0);
    assert_eq!(fx_mul(3, 3), 0);
    // Integer square roots at the scale boundary.
    assert_eq!(isqrt(0), 0);
    assert_eq!(isqrt(ONE * ONE), ONE);
    assert_eq!(isqrt(ONE * ONE - 1), ONE - 1);
}

#[test]
fn clamp_and_approx_equal() {
    assert_eq!(clamp(5, 0, 10), 5);
    assert_eq!(clamp(-5, 0, 10), 0);
    assert_eq!(clamp(15, 0, 10), 10);
    assert!(approx_equal(100, 101));
    assert!(!approx_equal(100, 104));
}

#[test]
fn trig_kernels() {
    // sin 0 == 0 and cos 0 == 1, exactly.
    assert_eq!(sin_fx(0), 0);
    assert!(close(cos_fx(0), ONE, 4));
    // Quarter-turn values.
    assert!(close(sin_fx(HALF_PI_FX), ONE, 64));
    assert!(close(cos_fx(HALF_PI_FX), 0, 64));
    assert!(close(sin_fx(PI_FX), 0, 64));
    // 30 degrees: sin is one half.
    assert!(close(sin_fx(PI_FX / 6), ONE / 2, 64));
    // Arc cosine inverts the cosine at easy points.
    assert!(close(acos_fx(0), HALF_PI_FX, 2100));
    assert!(close(acos_fx(ONE), 0, 2100));
    assert!(close(acos_fx(-ONE), PI_FX, 2100));
}

#[test]
fn wedge_antisymmetry() {
    // wedge(u, v) == -wedge(v, u), exactly, including unaligned values.
    let u = Fix3::new(123456, -789012, 345678);
    let v = Fix3::new(-987654, 321098, -654321);
    let uv = Fix3::wedge(u, v);
    let vu = Fix3::wedge(v, u).neg();
    assert_eq!(uv, vu);

    let u4 = Fix4::new(123456, -789012, 345678, 901234);
    let v4 = Fix4::new(-987654, 321098, -654321, 98765);
    let uv4 = Fix4::wedge(u4, v4);
    let vu4 = Fix4::wedge(v4, u4).neg();
    assert_eq!(uv4, vu4);

    // The wedge of a vector with itself vanishes.
    let uu = Fix3::wedge(u, u);
    assert_eq!((uu.yz, uu.xz, uu.xy), (0, 0, 0));
}

#[test]
fn identity_rotation_is_exact() {
    // rotate_vector(IDENTITY, v) == v, exactly, in both dimensions.
    let v = Fix3::new(123456, -789012, 345678);
    assert_eq!(Rotor3::identity().rotate_vector(v), v);
    let v4 = Fix4::new(123456, -789012, 345678, -246810);
    assert_eq!(Rotor4::identity().rotate_vector(v4), v4);
}

#[test]
fn reverse_inverts_plane_rotors() {
    // r * reverse(r) == IDENTITY for unit rotors built via bivector_angle
    // on a single plane, in both dimensions.
    let bv3 = Bivector3::new(0, ONE, 0);
    let r3 = Rotor3::bivector_angle(&bv3, PI_FX / 3);
    let c3 = Rotor3::rotate_rotor(&r3, &Rotor3::reverse(&r3));
    assert!(close(c3.a, ONE, 8));
    assert!(close(c3.bv.yz, 0, 8) && close(c3.bv.xz, 0, 8) && close(c3.bv.xy, 0, 8));

    let bv4 = Bivector4::new(0, 0, 0, ONE, 0, 0);
    let r4 = Rotor4::bivector_angle(&bv4, PI_FX / 3);
    let c4 = Rotor4::rotate_rotor(&r4, &Rotor4::reverse(&r4));
    assert!(close(c4.a, ONE, 8));
    assert!(close(c4.bv.yz, 0, 8) && close(c4.bv.xz, 0, 8) && close(c4.bv.xy, 0, 8));
    assert!(close(c4.bv.xw, 0, 8) && close(c4.bv.yw, 0, 8) && close(c4.bv.zw, 0, 8));
    assert!(close(c4.p, 0, 8));
}

#[test]
fn rotation_preserves_length() {
    // length(rotate_vector(r, v)) == length(v) for many unit rotors and
    // vectors, built from a small linear-congruential sequence.
    let mut seed: i64 = 12345;
    let mut next = move || {
        seed = (seed.wrapping_mul(1103515245).wrapping_add(12347)) % 131072;
        seed
    };
    for _ in 0..60 {
        let bv = Bivector3::new(next(), next(), next());
        let angle = next() * 25;
        let r = Rotor3::bivector_angle(&bv, angle.clamp(-6588397, 6588397));
        let v = Fix3::new(next() * 8, next() * 8, next() * 8);
        let rotated = r.rotate_vector(v);
        assert!(close(rotated.length(), v.length(), 2048));
    }
    // In four dimensions the plane must be simple (a wedge of two
    // vectors): a rotor built on a bivector with a nonzero self-wedge is
    // no isometry.
    for _ in 0..60 {
        let u1 = Fix4::new(next(), next(), next(), next());
        let u2 = Fix4::new(next(), next(), next(), next());
        let bv = Fix4::wedge(u1, u2);
        let angle = next() * 25;
        let r = Rotor4::bivector_angle(&bv, angle.clamp(-6588397, 6588397));
        let v = Fix4::new(next() * 8, next() * 8, next() * 8, next() * 8);
        let rotated = r.rotate_vector(v);
        assert!(close(rotated.length(), v.length(), 4096));
    }
}

#[test]
fn angle_recovers_rotation_angle() {
    // angle(bivector_angle(bv, theta)) == theta across the open interval.
    let bv = Bivector3::new(3 * ONE, -ONE, 2 * ONE);
    let mut theta: i64 = PI_FX / 16;
    while theta < PI_FX {
        let r = Rotor3::bivector_angle(&bv, theta);
        assert!(close(r.angle(), theta, 4200));
        theta += PI_FX / 16;
    }
}
