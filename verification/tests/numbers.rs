use raytracing::interval::Interval;
use raytracing::scalar::Scalar;
use raytracing::vec3::Vec3;

fn s(x: f64) -> Scalar {
    Scalar::from_bits(x.to_bits())
}

fn v(x: f64, y: f64, z: f64) -> Vec3 {
    Vec3 { x: s(x), y: s(y), z: s(z) }
}

fn samples() -> Vec<f64> {
    vec![
        f64::NAN,
        -f64::NAN,
        f64::NEG_INFINITY,
        -1.0e300,
        -1.5,
        -1.0,
        -0.001,
        -5e-324,
        -0.0,
        0.0,
        5e-324,
        2.2250738585072014e-308,
        1e-160,
        1e-8,
        0.001,
        0.5,
        0.999,
        1.0,
        1.0000000000000002,
        255.0,
        1.0e300,
        f64::MAX,
        f64::INFINITY,
    ]
}

#[test]
fn comparisons_agree_with_the_numbers() {
    for a in samples() {
        for b in samples() {
            assert_eq!(s(a).lt(s(b)), a < b, "{a} < {b}");
            assert_eq!(s(a).le(s(b)), a <= b, "{a} <= {b}");
            assert_eq!(s(a).gt(s(b)), a > b, "{a} > {b}");
        }
    }
}

#[test]
fn nan_is_recognised() {
    for a in samples() {
        assert_eq!(s(a).is_nan(), a.is_nan(), "{a}");
    }
}

#[test]
fn negation_and_magnitude_are_exact() {
    for a in samples() {
        assert_eq!(s(a).neg().to_bits(), (-a).to_bits(), "{a}");
        assert_eq!(s(a).abs().to_bits(), a.abs().to_bits(), "{a}");
        assert_eq!(s(a).neg().neg(), s(a));
    }
}

#[test]
fn named_constants_are_the_numbers() {
    assert_eq!(Scalar::zero().to_bits(), 0.0f64.to_bits());
    assert_eq!(Scalar::one().to_bits(), 1.0f64.to_bits());
    assert_eq!(Scalar::infinity().to_bits(), f64::INFINITY.to_bits());
    assert_eq!(raytracing::vec3::NEAR_ZERO_BITS, 1e-8f64.to_bits());
    assert_eq!(raytracing::vec3::TINY_BITS, 1e-160f64.to_bits());
    assert_eq!(raytracing::color::BRIGHTEST_BITS, 0.999f64.to_bits());
}

#[test]
fn zero_has_no_sign_in_comparisons() {
    assert!(!s(-0.0).lt(s(0.0)));
    assert!(s(-0.0).le(s(0.0)));
    assert!(s(0.0).le(s(-0.0)));
    assert!(s(-0.0) != s(0.0));
}

#[test]
fn interval_contains_is_inclusive() {
    let i = Interval::new(s(1.0), s(2.0));
    assert!(i.contains(s(1.0)));
    assert!(i.contains(s(2.0)));
    assert!(i.contains(s(1.5)));
    assert!(!i.contains(s(0.999)));
    assert!(!i.contains(s(2.5)));
    assert!(!i.contains(s(f64::NAN)));
}

#[test]
fn interval_surrounds_is_exclusive() {
    let i = Interval::new(s(1.0), s(2.0));
    assert!(!i.surrounds(s(1.0)));
    assert!(!i.surrounds(s(2.0)));
    assert!(i.surrounds(s(1.5)));
    assert!(i.surrounds(s(1.0000000000000002)));
    assert!(!i.surrounds(s(f64::NAN)));
    let open = Interval::new(s(0.001), s(f64::INFINITY));
    assert!(open.surrounds(s(1.0e300)));
    assert!(!open.surrounds(s(f64::INFINITY)));
    assert!(!open.surrounds(s(0.001)));
}

#[test]
fn interval_clamp_projects_into_the_range() {
    let i = Interval::new(s(0.0), s(0.999));
    assert_eq!(i.clamp(s(-3.0)), s(0.0));
    assert_eq!(i.clamp(s(1.0)), s(0.999));
    assert_eq!(i.clamp(s(0.25)), s(0.25));
    assert_eq!(i.clamp(s(0.999)), s(0.999));
    assert_eq!(i.clamp(s(f64::INFINITY)), s(0.999));
    assert!(i.clamp(s(f64::NAN)).is_nan());
}

#[test]
fn interval_agrees_with_the_numbers() {
    for lo in [-1.0, 0.0, 0.001] {
        for hi in [0.5, 0.999, f64::INFINITY] {
            let i = Interval::new(s(lo), s(hi));
            for x in samples() {
                assert_eq!(i.contains(s(x)), lo <= x && x <= hi);
                assert_eq!(i.surrounds(s(x)), lo < x && x < hi);
                let expect = if x < lo {
                    lo
                } else if x > hi {
                    hi
                } else {
                    x
                };
                assert_eq!(i.clamp(s(x)).to_bits(), expect.to_bits());
            }
        }
    }
}

#[test]
fn zeros_is_positive_zero_everywhere() {
    let z = Vec3::zeros();
    assert_eq!(z, v(0.0, 0.0, 0.0));
    assert_eq!(z.x.to_bits(), 0);
}

#[test]
fn vector_negation_flips_every_component() {
    assert_eq!(v(1.0, -2.0, 0.0).neg(), v(-1.0, 2.0, -0.0));
    assert_eq!(v(1.0, -2.0, 0.0).neg().neg(), v(1.0, -2.0, 0.0));
}

#[test]
fn near_zero_is_strict_in_every_component() {
    assert!(v(0.0, 0.0, 0.0).near_zero());
    assert!(v(9.9e-9, -9.9e-9, 1e-300).near_zero());
    assert!(!v(1e-8, 0.0, 0.0).near_zero());
    assert!(!v(0.0, -1e-8, 0.0).near_zero());
    assert!(!v(0.0, 0.0, 1.0).near_zero());
    assert!(!v(f64::NAN, 0.0, 0.0).near_zero());
}

#[test]
fn unit_sample_is_kept_in_the_half_open_range() {
    assert!(!Vec3::accepts_unit_sample(s(1e-160)));
    assert!(Vec3::accepts_unit_sample(s(1.1e-160)));
    assert!(Vec3::accepts_unit_sample(s(0.3)));
    assert!(Vec3::accepts_unit_sample(s(1.0)));
    assert!(!Vec3::accepts_unit_sample(s(1.0000000000000002)));
    assert!(!Vec3::accepts_unit_sample(s(0.0)));
    assert!(!Vec3::accepts_unit_sample(s(f64::NAN)));
}

#[test]
fn disc_sample_is_kept_below_one() {
    assert!(Vec3::accepts_disc_sample(s(0.0)));
    assert!(Vec3::accepts_disc_sample(s(0.9999999999999999)));
    assert!(!Vec3::accepts_disc_sample(s(1.0)));
    assert!(!Vec3::accepts_disc_sample(s(2.0)));
}

#[test]
fn hemisphere_flips_unless_the_dot_is_positive() {
    let u = v(0.0, 1.0, 0.0);
    assert_eq!(Vec3::random_on_hemisphere(u, s(0.5)), u);
    assert_eq!(Vec3::random_on_hemisphere(u, s(-0.5)), u.neg());
    assert_eq!(Vec3::random_on_hemisphere(u, s(0.0)), u.neg());
}

#[test]
fn truncation_agrees_with_the_numbers() {
    let more = [
        0.9999999999999999,
        1.5,
        -1.5,
        2.0,
        1079.9999999999998,
        1080.0,
        65536.75,
        -65536.75,
        2147483646.5,
        2147483647.0,
        2147483647.5,
        2147483648.0,
        -2147483647.5,
        -2147483648.0,
        -2147483648.5,
        -2147483649.0,
        4503599627370496.0,
        9007199254740993.0,
        1e10,
        -1e10,
    ];
    for x in samples().into_iter().chain(more) {
        assert_eq!(s(x).truncate(), x as i32, "{x}");
    }
}

#[test]
fn truncation_cuts_towards_zero() {
    assert_eq!(s(2.9).truncate(), 2);
    assert_eq!(s(-2.9).truncate(), -2);
    assert_eq!(s(0.9).truncate(), 0);
    assert_eq!(s(-0.9).truncate(), 0);
    assert_eq!(s(f64::NAN).truncate(), 0);
    assert_eq!(s(f64::INFINITY).truncate(), i32::MAX);
    assert_eq!(s(f64::NEG_INFINITY).truncate(), i32::MIN);
}

#[test]
fn refraction_falls_back_to_the_mirror() {
    let bent = v(0.1, -0.9, 0.0);
    let mirrored = v(0.1, 0.9, 0.0);
    assert_eq!(Vec3::refract(s(0.25), bent, mirrored), bent);
    assert_eq!(Vec3::refract(s(0.0), bent, mirrored), bent);
    assert_eq!(Vec3::refract(s(-0.0), bent, mirrored), bent);
    assert_eq!(Vec3::refract(s(-0.25), bent, mirrored), mirrored);
    assert_eq!(Vec3::refract(s(f64::NAN), bent, mirrored), bent);
}

#[test]
fn square_root_of_squares_is_exact() {
    assert_eq!(s(1.0).sqrt(), s(1.0));
    assert_eq!(s(4.0).sqrt(), s(2.0));
    assert_eq!(s(0.25).sqrt(), s(0.5));
    assert_eq!(s(9.0).sqrt(), s(3.0));
    assert_eq!(s(1.0e300).sqrt(), s(1.0e150));
    assert_eq!(s(f64::INFINITY).sqrt(), s(f64::INFINITY));
}

#[test]
fn square_root_is_rounded_to_the_nearest_number() {
    let edges = [
        5e-324,
        1e-323,
        2.2250738585072009e-308,
        2.2250738585072014e-308,
        4.4501477170144023e-308,
        0.9999999999999999,
        1.0000000000000002,
        1.9999999999999998,
        2.0,
        3.9999999999999996,
        4.000000000000001,
        0.5,
        0.999,
        1e-160,
        f64::MAX,
    ];
    for x in edges {
        assert_eq!(s(x).sqrt().to_bits(), x.sqrt().to_bits(), "{x}");
    }
}

#[test]
fn square_root_agrees_with_the_numbers() {
    let mut state: u64 = 0x9E37_79B9_7F4A_7C15;
    for _ in 0..20000 {
        state = state.wrapping_mul(6364136223846793005).wrapping_add(1442695040888963407);
        let bits = (state >> 1) % 0x7FF0_0000_0000_0000;
        if bits == 0 {
            continue;
        }
        let x = f64::from_bits(bits);
        assert_eq!(s(x).sqrt().to_bits(), x.sqrt().to_bits(), "{x}");
    }
    for k in 1..3000u64 {
        let x = f64::from_bits(k * 0x0000_0431_BDE8_2D7B);
        assert_eq!(s(x).sqrt().to_bits(), x.sqrt().to_bits(), "{x}");
        let near_one = f64::from_bits(0x3FF0_0000_0000_0000 - 1500 + k);
        assert_eq!(s(near_one).sqrt().to_bits(), near_one.sqrt().to_bits(), "{near_one}");
        let near_four = f64::from_bits(0x4010_0000_0000_0000 - 1500 + k);
        assert_eq!(s(near_four).sqrt().to_bits(), near_four.sqrt().to_bits(), "{near_four}");
    }
}
