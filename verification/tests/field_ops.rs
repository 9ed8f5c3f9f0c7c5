//! Field arithmetic: the boolean encoding, the signed-residue comparison,
//! the shift round trip, and the decimal parser.

use circom_backend::field;

fn fe(n: u64) -> field::FieldElement {
    field::from_u64(n)
}

#[test]
fn from_bool_matches_is_true() {
    for n in [0u64, 1, 2, 7, 255, 1 << 60] {
        let x = fe(n);
        let lhs = field::from_bool(field::is_true(&x));
        let rhs = field::from_bool(n != 0);
        assert!(field::equals(&lhs, &rhs));
    }
}

#[test]
fn lt_is_negative_of_difference() {
    let pairs = [(3u64, 5u64), (5, 3), (0, 1), (1, 0), (9, 9)];
    for (a, b) in pairs {
        let fa = fe(a);
        let fb = fe(b);
        let d = fa.sub(&fb);
        assert_eq!(field::lt(&fa, &fb), field::is_negative(&d));
    }
}

#[test]
fn lt_orders_small_values() {
    assert!(field::lt(&fe(3), &fe(5)));
    assert!(!field::lt(&fe(5), &fe(3)));
    assert!(!field::lt(&fe(4), &fe(4)));
}

#[test]
fn lt_signed_residues() {
    // minus one is the largest canonical value but the smallest signed one
    let minus_one = field::zero().sub(&field::one());
    assert!(field::is_negative(&minus_one));
    assert!(field::lt(&minus_one, &field::zero()));
    assert!(field::lt(&minus_one, &field::one()));
    assert!(!field::is_negative(&field::zero()));
    assert!(!field::is_negative(&fe(12345)));
}

#[test]
fn shift_round_trip() {
    let x = fe(5);
    let n = fe(3);
    let shifted = field::shl(&x, &n).unwrap();
    assert!(field::equals(&shifted, &fe(40)));
    let back = field::shr(&shifted, &n).unwrap();
    assert!(field::equals(&back, &x));
}

#[test]
fn shift_values() {
    assert!(field::equals(&field::shl(&fe(3), &fe(1)).unwrap(), &fe(6)));
    assert!(field::equals(&field::shr(&fe(12), &fe(2)).unwrap(), &fe(3)));
    // a shift by the whole width clears the value
    assert!(field::equals(&field::shr(&fe(12), &fe(300)).unwrap(), &field::zero()));
    // a count that does not fit 64 bits is refused
    let huge = field::shl(&fe(1), &fe(200)).unwrap();
    assert!(matches!(
        field::shl(&fe(1), &huge),
        Err(field::FieldError::ShiftCountOverflow)
    ));
}

#[test]
fn bitwise_and() {
    assert!(field::equals(&field::bit_and(&fe(12), &fe(10)), &fe(8)));
    assert!(field::equals(&field::bit_and(&fe(255), &fe(0)), &field::zero()));
}

#[test]
fn arithmetic_values() {
    assert!(field::equals(&fe(3).mul(&fe(5)), &fe(15)));
    assert!(field::equals(&fe(3).add(&fe(5)), &fe(8)));
    assert!(field::equals(&fe(3).sub(&fe(5)), &field::zero().sub(&fe(2))));
    assert!(field::equals(&fe(15).div(&fe(3)).unwrap(), &fe(5)));
    assert!(matches!(
        fe(15).div(&field::zero()),
        Err(field::FieldError::DivisionByZero)
    ));
}

#[test]
fn to_u64_values() {
    assert_eq!(field::to_u64(&fe(123)), Some(123));
    assert_eq!(field::to_u64(&field::zero()), Some(0));
    let big = field::shl(&fe(1), &fe(200)).unwrap();
    assert_eq!(field::to_u64(&big), None);
}

#[test]
fn parse_decimal_constants() {
    assert!(field::equals(&field::parse_field_element("15").unwrap(), &fe(15)));
    assert!(field::equals(&field::parse_field_element("0").unwrap(), &field::zero()));
    let minus_one = field::zero().sub(&field::one());
    assert!(field::equals(&field::parse_field_element("-1").unwrap(), &minus_one));
    assert!(field::parse_field_element("").is_none());
    assert!(field::parse_field_element("-").is_none());
    assert!(field::parse_field_element("12a").is_none());
    // the prime itself reduces to zero
    let p_str = "28948022309329048855892746252171976963363056481941560715954676764349967630337";
    assert!(field::equals(&field::parse_field_element(p_str).unwrap(), &field::zero()));
}

#[test]
fn copy_overwrites() {
    let src = fe(77);
    let mut dst = field::zero();
    field::copy(&mut dst, &src);
    assert!(field::equals(&dst, &src));
}
