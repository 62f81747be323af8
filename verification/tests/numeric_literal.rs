use as3_parser::ast::NumericLiteral;
use as3_parser::location::Location;
use num_bigint::BigInt;

fn literal(value: &str) -> NumericLiteral {
    NumericLiteral {
        location: Location::with_line_and_offset(1, 0),
        value: value.to_owned(),
    }
}

#[test]
fn test_minimum_maximum() {
    // Long.MIN_VALUE
    let literal_1 = NumericLiteral {
        location: Location::with_line_and_offset(1, 0),
        value: "0x8000_0000_0000_0000".to_owned(),
    };
    assert_eq!(i64::MIN, literal_1.parse_long(true).unwrap());

    // Long.MAX_VALUE
    let literal_2 = NumericLiteral {
        location: Location::with_line_and_offset(1, 0),
        value: "0x7FFF_FFFF_FFFF_FFFF".to_owned(),
    };
    assert_eq!(i64::MAX, literal_2.parse_long(false).unwrap());
}

#[test]
fn parse_long_overflow_fails() {
    assert!(literal("0x8000_0000_0000_0000").parse_long(false).is_err());
    assert!(literal("0x8000_0000_0000_0001").parse_long(true).is_err());
    assert!(literal("9223372036854775808").parse_long(false).is_err());
}

#[test]
fn parse_long_decimal_and_binary() {
    assert_eq!(literal("1_000").parse_long(false).unwrap(), 1000);
    assert_eq!(literal("-42").parse_long(false).unwrap(), -42);
    assert_eq!(literal("+7").parse_long(false).unwrap(), 7);
    assert_eq!(literal("0b101").parse_long(true).unwrap(), -5);
    assert_eq!(literal("0Xff").parse_long(false).unwrap(), 255);
}

#[test]
fn parse_long_decimal_ignores_negative() {
    assert_eq!(literal("12").parse_long(true).unwrap(), 12);
}

#[test]
fn parse_long_rejects_other_forms() {
    assert!(literal("1.5").parse_long(false).is_err());
    assert!(literal("").parse_long(false).is_err());
    assert!(literal("0x").parse_long(false).is_err());
    assert!(literal("0b2").parse_long(false).is_err());
    assert!(literal("-").parse_long(false).is_err());
}

#[test]
fn parse_big_int_in_each_notation() {
    assert_eq!(literal("0xFF").parse_big_int(false).ok().unwrap(), BigInt::from(255));
    assert_eq!(literal("0b1_0").parse_big_int(true).ok().unwrap(), BigInt::from(-2));
    assert_eq!(literal("123_456_789_012_345_678_901").parse_big_int(false).ok().unwrap(),
        "123456789012345678901".parse::<BigInt>().unwrap());
    assert_eq!(literal("-15").parse_big_int(false).ok().unwrap(), BigInt::from(-15));
}

#[test]
fn parse_big_int_rejects_fractions() {
    assert!(literal("1.5").parse_big_int(false).is_err());
    assert!(literal("1e3").parse_big_int(false).is_err());
}
