use cdadd::num::{decimal_text, hex_text, parse_hex_u32, parse_i32, parse_u8, parse_usize};

#[test]
fn decimal_parsing() {
    assert_eq!(parse_usize("42"), Some(42));
    assert_eq!(parse_usize("+7"), Some(7));
    assert_eq!(parse_usize(""), None);
    assert_eq!(parse_usize("+"), None);
    assert_eq!(parse_usize("-1"), None);
    assert_eq!(parse_usize("1a"), None);
    assert_eq!(parse_u8("255"), Some(255));
    assert_eq!(parse_u8("256"), None);
}

#[test]
fn signed_parsing() {
    assert_eq!(parse_i32("-2147483648"), Some(i32::MIN));
    assert_eq!(parse_i32("2147483647"), Some(i32::MAX));
    assert_eq!(parse_i32("2147483648"), None);
    assert_eq!(parse_i32("-"), None);
    assert_eq!(parse_i32("+12"), Some(12));
}

#[test]
fn hex_parsing() {
    assert_eq!(parse_hex_u32("a1B2c3"), Some(0xa1b2c3));
    assert_eq!(parse_hex_u32("ffffffff"), Some(u32::MAX));
    assert_eq!(parse_hex_u32("100000000"), None);
    assert_eq!(parse_hex_u32("0x10"), None);
    assert_eq!(parse_hex_u32("g"), None);
}

#[test]
fn number_formatting() {
    assert_eq!(decimal_text(5, 2), "05");
    assert_eq!(decimal_text(123, 2), "123");
    assert_eq!(decimal_text(0, 0), "0");
    assert_eq!(hex_text(0xa1b2c3), "a1b2c3");
    assert_eq!(hex_text(0), "0");
}
