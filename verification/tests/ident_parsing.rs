use guild_scrape::ident::parse_decimal_id;

#[test]
fn parses_plain_numbers() {
    assert_eq!(parse_decimal_id(b"0"), Some(0));
    assert_eq!(parse_decimal_id(b"7"), Some(7));
    assert_eq!(parse_decimal_id(b"1024"), Some(1024));
    assert_eq!(parse_decimal_id(b"003"), Some(3));
}

#[test]
fn parses_the_largest_identifier() {
    assert_eq!(parse_decimal_id(b"18446744073709551615"), Some(u64::MAX));
}

#[test]
fn rejects_overflowing_identifiers() {
    assert_eq!(parse_decimal_id(b"18446744073709551616"), None);
    assert_eq!(parse_decimal_id(b"99999999999999999999"), None);
}

#[test]
fn rejects_empty_input() {
    assert_eq!(parse_decimal_id(b""), None);
}

#[test]
fn rejects_non_digits() {
    assert_eq!(parse_decimal_id(b"12a4"), None);
    assert_eq!(parse_decimal_id(b"-5"), None);
    assert_eq!(parse_decimal_id(b" 12"), None);
    assert_eq!(parse_decimal_id(b"1 "), None);
}
