use stackup::number::{from_bool, nan, truthy, INFINITY, ONE, SIGN, ZERO};
use stackup::CompOp;

fn samples() -> Vec<f64> {
    vec![
        0.0,
        -0.0,
        1.0,
        -1.0,
        0.5,
        -0.5,
        2.0,
        1e300,
        -1e300,
        5e-324,
        -5e-324,
        f64::MIN_POSITIVE,
        f64::MAX,
        f64::MIN,
        f64::INFINITY,
        f64::NEG_INFINITY,
        f64::NAN,
        -f64::NAN,
        f64::from_bits(0x7FF0_0000_0000_0001),
        f64::from_bits(0xFFFF_FFFF_FFFF_FFFF),
        3.141592653589793,
        -2.718281828459045,
    ]
}

#[test]
fn the_constants_are_the_bit_patterns() {
    assert_eq!(ONE, 1.0f64.to_bits());
    assert_eq!(ZERO, 0.0f64.to_bits());
    assert_eq!(INFINITY, f64::INFINITY.to_bits());
    assert_eq!(SIGN, (-0.0f64).to_bits());
}

#[test]
fn nan_agrees_with_the_hardware() {
    for x in samples() {
        assert_eq!(nan(x.to_bits()), x.is_nan(), "{x}");
    }
}

#[test]
fn truthy_agrees_with_the_hardware() {
    for x in samples() {
        assert_eq!(truthy(x.to_bits()), x > 0.0, "{x}");
    }
}

#[test]
fn comparisons_agree_with_the_hardware() {
    for a in samples() {
        for b in samples() {
            let (x, y) = (a.to_bits(), b.to_bits());
            assert_eq!(CompOp::Eq.test(x, y), a == b, "{a} == {b}");
            assert_eq!(CompOp::Lt.test(x, y), a < b, "{a} < {b}");
            assert_eq!(CompOp::Gt.test(x, y), a > b, "{a} > {b}");
            assert_eq!(CompOp::Le.test(x, y), a <= b, "{a} <= {b}");
            assert_eq!(CompOp::Ge.test(x, y), a >= b, "{a} >= {b}");
        }
    }
}

#[test]
fn truth_values_are_one_and_zero() {
    assert_eq!(f64::from_bits(from_bool(true)), 1.0);
    assert_eq!(f64::from_bits(from_bool(false)), 0.0);
    assert_eq!(from_bool(false), 0);
}
