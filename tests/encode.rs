use crunner::{
    encode_param, get_address_from_str, is_eoa_code, prepare_params, u256_to_decimal,
    EncodingError, ParamValue, Uint256,
};

fn uint_of(v: &ParamValue) -> Uint256 {
    match v {
        ParamValue::Uint(u) => *u,
        _ => panic!("not an integer"),
    }
}

#[test]
fn address_bytes_decoded() {
    let a = get_address_from_str("0x00112233445566778899aabbccddeeff0A1b2C3d").unwrap();
    let want: [u8; 20] = [
        0x00, 0x11, 0x22, 0x33, 0x44, 0x55, 0x66, 0x77, 0x88, 0x99, 0xaa, 0xbb, 0xcc, 0xdd, 0xee,
        0xff, 0x0a, 0x1b, 0x2c, 0x3d,
    ];
    assert_eq!(a.bytes, want);
    let b = get_address_from_str("00112233445566778899aabbccddeeff0A1b2C3d").unwrap();
    assert_eq!(b.bytes, want);
}

#[test]
fn bad_address_rejected() {
    assert!(get_address_from_str("0x1234").is_err());
    assert!(get_address_from_str("hello").is_err());
}

#[test]
fn hex_integer_value() {
    let v = encode_param("0x1f").unwrap();
    assert_eq!(uint_of(&v).words, [31, 0, 0, 0]);
    let w = encode_param("0X10000000000000000").unwrap();
    assert_eq!(uint_of(&w).words, [0, 1, 0, 0]);
}

#[test]
fn hex_integer_too_long() {
    let s = format!("0x{}", "f".repeat(65));
    assert_eq!(encode_param(&s).unwrap_err(), EncodingError::HexInteger);
    let t = format!("0x{}", "f".repeat(64));
    assert_eq!(uint_of(&encode_param(&t).unwrap()).words, [u64::MAX; 4]);
}

#[test]
fn decimal_integer_value() {
    let v = encode_param("1000000000000000000").unwrap();
    assert_eq!(uint_of(&v).words, [1_000_000_000_000_000_000, 0, 0, 0]);
    let w = encode_param("18446744073709551616").unwrap();
    assert_eq!(uint_of(&w).words, [0, 1, 0, 0]);
}

#[test]
fn negative_decimal_fails() {
    assert_eq!(encode_param("-5").unwrap_err(), EncodingError::DecimalInteger);
}

#[test]
fn decimal_overflow_fails() {
    let max = "115792089237316195423570985008687907853269984665640564039457584007913129639935";
    assert_eq!(uint_of(&encode_param(max).unwrap()).words, [u64::MAX; 4]);
    let over = "115792089237316195423570985008687907853269984665640564039457584007913129639936";
    assert_eq!(encode_param(over).unwrap_err(), EncodingError::DecimalInteger);
}

#[test]
fn text_passes_through() {
    match encode_param("hello world").unwrap() {
        ParamValue::Text(t) => assert_eq!(t, "hello world"),
        _ => panic!("expected text"),
    }
}

#[test]
fn decimal_round_trip() {
    for s in ["1", "42", "1000000000000000000", "98765432109876543210987654321"] {
        let v = uint_of(&encode_param(s).unwrap());
        assert_eq!(u256_to_decimal(&v), s);
    }
}

#[test]
fn render_zero_and_max() {
    assert_eq!(u256_to_decimal(&Uint256 { words: [0; 4] }), "0");
    assert_eq!(
        u256_to_decimal(&Uint256 { words: [u64::MAX; 4] }),
        "115792089237316195423570985008687907853269984665640564039457584007913129639935"
    );
}

#[test]
fn params_prepared_in_order() {
    let params = vec![
        "0xBBBBBBBBBBBBBBBBBBBBBBBBBBBBBBBBBBBBBBBB".to_string(),
        "1000".to_string(),
        "name".to_string(),
    ];
    let out = prepare_params(&params).unwrap();
    assert_eq!(out.len(), 3);
    match &out[0] {
        ParamValue::Address(a) => assert_eq!(a.bytes, [0xbb; 20]),
        _ => panic!("expected address"),
    }
    assert_eq!(uint_of(&out[1]).words, [1000, 0, 0, 0]);
    match &out[2] {
        ParamValue::Text(t) => assert_eq!(t, "name"),
        _ => panic!("expected text"),
    }
}

#[test]
fn params_first_error_reported() {
    let params = vec!["ok".to_string(), "-1".to_string(), format!("0x{}", "1".repeat(70))];
    assert_eq!(prepare_params(&params).unwrap_err(), EncodingError::DecimalInteger);
    assert!(prepare_params(&Vec::new()).unwrap().is_empty());
}

#[test]
fn eoa_detected_from_empty_code() {
    assert!(is_eoa_code(&Vec::new()));
    assert!(!is_eoa_code(&vec![0x60, 0x80]));
    assert!(!is_eoa_code(&vec![0]));
}

#[test]
fn scaled_one_ether() {
    let v = uint_of(&encode_param("1000000000000000000").unwrap());
    let text = u256_to_decimal(&v);
    let f = primitive_types::U256::from_dec_str(&text).unwrap().to_f64_lossy() / 10_f64.powf(18_f64);
    assert!((f - 1.0).abs() < 1e-12);
}

#[test]
fn hex_leading_zeros_allowed() {
    let s = format!("0x{}1", "0".repeat(64));
    assert_eq!(uint_of(&encode_param(&s).unwrap()).words, [1, 0, 0, 0]);
    let z = format!("0x{}", "0".repeat(100));
    assert_eq!(uint_of(&encode_param(&z).unwrap()).words, [0, 0, 0, 0]);
    let big = format!("0x{}{}", "0".repeat(10), "f".repeat(64));
    assert_eq!(uint_of(&encode_param(&big).unwrap()).words, [u64::MAX; 4]);
    let over = format!("0x{}1{}", "0".repeat(10), "0".repeat(64));
    assert_eq!(encode_param(&over).unwrap_err(), EncodingError::HexInteger);
}

#[test]
fn address_error_names_address() {
    let e = get_address_from_str("0x1234").unwrap_err();
    assert_eq!(e, "Error address is not in the correct format; addr=0x1234");
}
