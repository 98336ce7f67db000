use imgproxy::size::{parse_size, parse_u32, SizeError};

#[test]
fn parses_plain_size_token() {
    let s = parse_size("200x100").unwrap();
    assert_eq!(s.width, 200);
    assert_eq!(s.height, 100);
    assert_eq!(s.token, "200x100");
}

#[test]
fn keeps_literal_token_with_leading_zeros() {
    let s = parse_size("0100x100").unwrap();
    assert_eq!(s.width, 100);
    assert_eq!(s.height, 100);
    assert_eq!(s.token, "0100x100");
}

#[test]
fn rejects_non_numeric_width() {
    assert_eq!(parse_size("abcx100").unwrap_err(), SizeError::BadWidth);
}

#[test]
fn rejects_missing_separator() {
    assert_eq!(parse_size("100").unwrap_err(), SizeError::MissingSeparator);
}

#[test]
fn rejects_empty_height() {
    assert_eq!(parse_size("100x").unwrap_err(), SizeError::BadHeight);
}

#[test]
fn rejects_empty_width() {
    assert_eq!(parse_size("x100").unwrap_err(), SizeError::BadWidth);
}

#[test]
fn rejects_empty_token() {
    assert_eq!(parse_size("").unwrap_err(), SizeError::MissingSeparator);
}

#[test]
fn splits_at_first_separator() {
    // "10x20x30": width "10", height "20x30" which is not numeric.
    assert_eq!(parse_size("10x20x30").unwrap_err(), SizeError::BadHeight);
}

#[test]
fn accepts_u32_max() {
    assert_eq!(parse_u32("4294967295"), Some(u32::MAX));
    let s = parse_size("4294967295x1").unwrap();
    assert_eq!(s.width, u32::MAX);
    assert_eq!(s.height, 1);
}

#[test]
fn rejects_u32_overflow() {
    assert_eq!(parse_u32("4294967296"), None);
    assert_eq!(parse_size("4294967296x1").unwrap_err(), SizeError::BadWidth);
}

#[test]
fn rejects_sign_and_space_in_number() {
    assert_eq!(parse_u32("+100"), None);
    assert_eq!(parse_u32(" 100"), None);
    assert_eq!(parse_u32(""), None);
    assert_eq!(parse_u32("10 0"), None);
}

#[test]
fn parses_zero_components() {
    let s = parse_size("0x0").unwrap();
    assert_eq!(s.width, 0);
    assert_eq!(s.height, 0);
}
