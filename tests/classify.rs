use crunner::{
    parse_param_type, validate_address_format, validate_decimal_format,
    validate_hexadecimal_format, validate_octal_format, FnParamType,
};

const ADDR: &str = "0xAAAAAAAAAAAAAAAAAAAAAAAAAAAAAAAAAAAAAAAA";

#[test]
fn prefixed_address_is_address() {
    assert_eq!(parse_param_type(ADDR), FnParamType::Address);
    assert_eq!(parse_param_type("0x00000000000000000000000000000000000000ff"), FnParamType::Address);
}

#[test]
fn unprefixed_address_is_address() {
    assert_eq!(parse_param_type("aBcDeF0123456789aBcDeF0123456789aBcDeF01"), FnParamType::Address);
    assert!(validate_address_format("0Xabcdef0123456789abcdef0123456789abcdef01"));
}

#[test]
fn forty_digit_decimal_is_address() {
    let s = "1234567890123456789012345678901234567890";
    assert!(validate_decimal_format(s));
    assert_eq!(parse_param_type(s), FnParamType::Address);
}

#[test]
fn malformed_addresses_rejected() {
    assert!(!validate_address_format("0xAAAAAAAAAAAAAAAAAAAAAAAAAAAAAAAAAAAAAAA"));
    assert!(!validate_address_format("0xAAAAAAAAAAAAAAAAAAAAAAAAAAAAAAAAAAAAAAAAA"));
    assert!(!validate_address_format("0xGAAAAAAAAAAAAAAAAAAAAAAAAAAAAAAAAAAAAAAA"));
    assert!(!validate_address_format("1xAAAAAAAAAAAAAAAAAAAAAAAAAAAAAAAAAAAAAAAA"));
    assert!(!validate_address_format(""));
}

#[test]
fn hex_integer_classified() {
    assert_eq!(parse_param_type("0x1f"), FnParamType::HU256);
    assert_eq!(parse_param_type("0XAbC"), FnParamType::HU256);
    assert!(validate_hexadecimal_format("0x0"));
    assert!(!validate_hexadecimal_format("0x"));
    assert!(!validate_hexadecimal_format("0x1g"));
    assert!(!validate_hexadecimal_format("10x1"));
}

#[test]
fn decimal_integer_classified() {
    assert_eq!(parse_param_type("1000"), FnParamType::DU256);
    assert_eq!(parse_param_type("-42"), FnParamType::DU256);
    assert_eq!(parse_param_type("7"), FnParamType::DU256);
    assert!(!validate_decimal_format("012"));
    assert!(!validate_decimal_format("-"));
    assert!(!validate_decimal_format("12a"));
}

#[test]
fn zero_is_text() {
    assert!(!validate_decimal_format("0"));
    assert_eq!(parse_param_type("0"), FnParamType::String);
}

#[test]
fn other_text_is_string() {
    assert_eq!(parse_param_type("hello"), FnParamType::String);
    assert_eq!(parse_param_type(""), FnParamType::String);
    assert_eq!(parse_param_type("1.5"), FnParamType::String);
    assert_eq!(parse_param_type("héllo"), FnParamType::String);
}

#[test]
fn octal_literal_found() {
    assert!(validate_octal_format("0o17"));
    assert!(validate_octal_format("x0O7"));
    assert!(!validate_octal_format("0o8"));
    assert!(!validate_octal_format("0o"));
}
