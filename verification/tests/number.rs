use rlox::interpreter::number::{equal, less, less_equal, negate, not_a_number};

fn samples() -> Vec<f32> {
    vec![
        0.0,
        -0.0,
        1.0,
        -1.0,
        0.5,
        -0.5,
        1.5,
        2.0,
        3.0,
        16777216.0,
        -16777216.0,
        f32::MIN_POSITIVE,
        -f32::MIN_POSITIVE,
        f32::from_bits(1),
        f32::from_bits(0x8000_0001),
        f32::MAX,
        f32::MIN,
        f32::EPSILON,
        f32::INFINITY,
        f32::NEG_INFINITY,
        f32::NAN,
        -f32::NAN,
        f32::from_bits(0x7f80_0001),
        f32::from_bits(0xffff_ffff),
        0.1,
        0.3,
        1.0e-10,
        -1.0e30,
    ]
}

#[test]
fn order_and_equality_agree_with_the_hardware() {
    for a in samples() {
        for b in samples() {
            let (x, y) = (a.to_bits(), b.to_bits());
            assert_eq!(equal(x, y), a == b, "{:?} == {:?}", a, b);
            assert_eq!(less(x, y), a < b, "{:?} < {:?}", a, b);
            assert_eq!(less_equal(x, y), a <= b, "{:?} <= {:?}", a, b);
            assert_eq!(less(y, x), a > b, "{:?} > {:?}", a, b);
            assert_eq!(less_equal(y, x), a >= b, "{:?} >= {:?}", a, b);
        }
    }
}

#[test]
fn negation_agrees_with_the_hardware() {
    for a in samples() {
        assert_eq!(negate(a.to_bits()), (-a).to_bits(), "-{:?}", a);
        assert_eq!(negate(negate(a.to_bits())), a.to_bits());
    }
}

#[test]
fn not_a_number_agrees_with_the_hardware() {
    for a in samples() {
        assert_eq!(not_a_number(a.to_bits()), a.is_nan(), "{:?}", a);
    }
}

#[test]
fn exact_bit_patterns() {
    assert_eq!(negate(0x3f80_0000), 0xbf80_0000);
    assert_eq!(negate(0x0000_0000), 0x8000_0000);
    assert!(equal(0x0000_0000, 0x8000_0000));
    assert!(!equal(0x7fc0_0000, 0x7fc0_0000));
    assert!(less(0xff80_0000, 0x7f80_0000));
    assert!(less(0x3f80_0000, 0x4000_0000));
    assert!(!less(0x8000_0000, 0x0000_0000));
    assert!(less_equal(0x8000_0000, 0x0000_0000));
    assert!(not_a_number(0x7f80_0001));
    assert!(!not_a_number(0x7f80_0000));
    assert!(!not_a_number(0xff80_0000));
}
