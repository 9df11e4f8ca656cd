use screen_pointer::binary64::{abs_bits, bits_equal, INFINITY_BITS, SIGN_BIT};
use screen_pointer::point3d::Point3D;

fn samples() -> Vec<f64> {
    vec![
        0.0,
        -0.0,
        1.0,
        -1.0,
        0.5,
        2.0,
        100.0,
        -100.0,
        1e-320,
        -1e-320,
        f64::MIN_POSITIVE,
        f64::MAX,
        f64::MIN,
        f64::EPSILON,
        f64::INFINITY,
        f64::NEG_INFINITY,
        f64::NAN,
        -f64::NAN,
        f64::from_bits(0x7ff0_0000_0000_0001),
        f64::from_bits(0xffff_ffff_ffff_ffff),
    ]
}

#[test]
fn abs_bits_matches_the_absolute_value() {
    for v in samples() {
        assert_eq!(abs_bits(v.to_bits()), v.abs().to_bits());
    }
    assert_eq!(abs_bits(SIGN_BIT), 0);
    assert_eq!(abs_bits(0x8000_0000_0000_0005), 5);
    assert_eq!(abs_bits(7), 7);
}

#[test]
fn infinity_bits_is_positive_infinity() {
    assert_eq!(INFINITY_BITS, f64::INFINITY.to_bits());
    assert_eq!(SIGN_BIT, (-0.0f64).to_bits());
}

#[test]
fn bits_equal_matches_numeric_equality() {
    let values = samples();
    for a in &values {
        for b in &values {
            assert_eq!(bits_equal(a.to_bits(), b.to_bits()), a == b);
        }
    }
}

#[test]
fn the_two_zeros_are_equal() {
    assert!(bits_equal(0.0f64.to_bits(), (-0.0f64).to_bits()));
    assert!(bits_equal((-0.0f64).to_bits(), 0.0f64.to_bits()));
}

#[test]
fn a_missing_number_equals_nothing() {
    let nan = f64::NAN.to_bits();
    assert!(!bits_equal(nan, nan));
    assert!(!bits_equal(nan, 1.0f64.to_bits()));
    assert!(!bits_equal(0.0f64.to_bits(), nan));
}

#[test]
fn different_numbers_are_not_equal() {
    assert!(!bits_equal(1.0f64.to_bits(), 2.0f64.to_bits()));
    assert!(!bits_equal(1.0f64.to_bits(), (-1.0f64).to_bits()));
    assert!(!bits_equal(f64::INFINITY.to_bits(), f64::NEG_INFINITY.to_bits()));
    assert!(bits_equal(f64::INFINITY.to_bits(), f64::INFINITY.to_bits()));
}

#[test]
fn point_new_keeps_the_coordinates() {
    let p = Point3D::new(1.5f64.to_bits(), (-2.0f64).to_bits(), 0.0f64.to_bits());
    assert_eq!(f64::from_bits(p.x), 1.5);
    assert_eq!(f64::from_bits(p.y), -2.0);
    assert_eq!(f64::from_bits(p.z), 0.0);
}

#[test]
fn points_coincide_by_number() {
    let a = Point3D::new(0.0f64.to_bits(), 1.0f64.to_bits(), 2.0f64.to_bits());
    let b = Point3D::new((-0.0f64).to_bits(), 1.0f64.to_bits(), 2.0f64.to_bits());
    let c = Point3D::new(0.0f64.to_bits(), 1.0f64.to_bits(), 2.5f64.to_bits());
    assert!(a.same_place(&b));
    assert!(b.same_place(&a));
    assert!(!a.same_place(&c));
    assert!(a == b);
    assert!(a != c);
    assert_eq!(a, b);
}

#[test]
fn a_point_with_a_missing_coordinate_lies_nowhere() {
    let p = Point3D::new(f64::NAN.to_bits(), 0.0f64.to_bits(), 0.0f64.to_bits());
    assert!(!p.same_place(&p));
    assert!(p != p);
}
