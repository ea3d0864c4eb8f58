use helm_core::values::{Mode, PtxtError, PtxtType};
use helm_core::wiremap::{get_input_wire_map, mode_of, parse_token, parse_u128};

#[test]
fn from_str_none_token() {
    assert_eq!(PtxtType::from_str("None"), Ok(PtxtType::Uninit));
}

#[test]
fn from_str_smallest_width() {
    assert_eq!(PtxtType::from_str("0"), Ok(PtxtType::U8(0)));
    assert_eq!(PtxtType::from_str("255"), Ok(PtxtType::U8(255)));
    assert_eq!(PtxtType::from_str("256"), Ok(PtxtType::U16(256)));
    assert_eq!(PtxtType::from_str("65535"), Ok(PtxtType::U16(65535)));
    assert_eq!(PtxtType::from_str("65536"), Ok(PtxtType::U32(65536)));
    assert_eq!(PtxtType::from_str("4294967296"), Ok(PtxtType::U64(4294967296)));
    assert_eq!(
        PtxtType::from_str("18446744073709551616"),
        Ok(PtxtType::U128(18446744073709551616))
    );
    assert_eq!(
        PtxtType::from_str("340282366920938463463374607431768211455"),
        Ok(PtxtType::U128(u128::MAX))
    );
}

#[test]
fn from_str_plus_sign() {
    assert_eq!(PtxtType::from_str("+5"), Ok(PtxtType::U8(5)));
}

#[test]
fn from_str_rejects_malformed() {
    assert_eq!(PtxtType::from_str(""), Err(PtxtError::InvalidInput));
    assert_eq!(PtxtType::from_str("+"), Err(PtxtError::InvalidInput));
    assert_eq!(PtxtType::from_str("abc"), Err(PtxtError::InvalidInput));
    assert_eq!(PtxtType::from_str("-3"), Err(PtxtError::InvalidInput));
    assert_eq!(PtxtType::from_str("1 2"), Err(PtxtError::InvalidInput));
    // one past the largest 128-bit value
    assert_eq!(
        PtxtType::from_str("340282366920938463463374607431768211456"),
        Err(PtxtError::InvalidInput)
    );
}

#[test]
fn parse_u128_exact() {
    assert_eq!(parse_u128("12345"), Some(12345));
    assert_eq!(parse_u128("00042"), Some(42));
    assert_eq!(parse_u128("999999999999999999999999999999999999999"), None);
    assert_eq!(parse_u128("12a"), None);
}

#[test]
fn mode_names() {
    assert_eq!(mode_of("bool"), Some(Mode::Bool));
    assert_eq!(mode_of("u8"), Some(Mode::U8));
    assert_eq!(mode_of("u16"), Some(Mode::U16));
    assert_eq!(mode_of("u32"), Some(Mode::U32));
    assert_eq!(mode_of("u64"), Some(Mode::U64));
    assert_eq!(mode_of("u128"), Some(Mode::U128));
    assert_eq!(mode_of("i32"), None);
}

#[test]
fn parse_token_boolean_leniency() {
    assert_eq!(parse_token(Mode::Bool, "1"), PtxtType::Bool(true));
    assert_eq!(parse_token(Mode::Bool, "true"), PtxtType::Bool(true));
    assert_eq!(parse_token(Mode::Bool, "0"), PtxtType::Bool(false));
    assert_eq!(parse_token(Mode::Bool, "false"), PtxtType::Bool(false));
    // a malformed token falls back to false rather than aborting
    assert_eq!(parse_token(Mode::Bool, "maybe"), PtxtType::Bool(false));
}

#[test]
fn parse_token_arithmetic_fallback() {
    assert_eq!(parse_token(Mode::U8, "200"), PtxtType::U8(200));
    // overflowing or malformed tokens fall back to zero
    assert_eq!(parse_token(Mode::U8, "300"), PtxtType::U8(0));
    assert_eq!(parse_token(Mode::U8, "x"), PtxtType::U8(0));
    assert_eq!(parse_token(Mode::U16, "65535"), PtxtType::U16(65535));
    assert_eq!(parse_token(Mode::U128, "18446744073709551616"),
        PtxtType::U128(18446744073709551616));
}

#[test]
fn input_wire_map_from_text() {
    let raw = vec![
        ("a".to_string(), "1".to_string()),
        ("b".to_string(), "false".to_string()),
        ("c".to_string(), "whatever".to_string()),
    ];
    let m = get_input_wire_map(&raw, "bool");
    assert_eq!(
        m,
        vec![
            ("a".to_string(), PtxtType::Bool(true)),
            ("b".to_string(), PtxtType::Bool(false)),
            ("c".to_string(), PtxtType::Bool(false)),
        ]
    );
    let raw = vec![("x".to_string(), "200".to_string()), ("y".to_string(), "999".to_string())];
    let m = get_input_wire_map(&raw, "u8");
    assert_eq!(
        m,
        vec![("x".to_string(), PtxtType::U8(200)), ("y".to_string(), PtxtType::U8(0))]
    );
}

#[test]
fn render_values() {
    assert_eq!(PtxtType::Bool(true).to_text(), "Bool(true)");
    assert_eq!(PtxtType::Bool(false).to_text(), "Bool(false)");
    assert_eq!(PtxtType::U8(44).to_text(), "U8(44)");
    assert_eq!(PtxtType::U8(0).to_text(), "U8(0)");
    assert_eq!(PtxtType::U16(65535).to_text(), "U16(65535)");
    assert_eq!(PtxtType::U32(100000).to_text(), "U32(100000)");
    assert_eq!(PtxtType::U64(42).to_text(), "U64(42)");
    assert_eq!(
        PtxtType::U128(u128::MAX).to_text(),
        "U128(340282366920938463463374607431768211455)"
    );
    assert_eq!(PtxtType::Uninit.to_text(), "None");
}
