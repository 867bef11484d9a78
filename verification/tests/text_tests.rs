use poke_events::{normalize, normalize_key, parse_optional_i32};

#[test]
fn normalize_trims_whitespace() {
    assert_eq!(normalize(b"  Rotterdam \t", b"Unknown city"), b"Rotterdam".to_vec());
}

#[test]
fn normalize_blank_takes_fallback() {
    assert_eq!(normalize(b"", b"Unknown organizer"), b"Unknown organizer".to_vec());
    assert_eq!(normalize(b"   \t ", b"XX"), b"XX".to_vec());
}

#[test]
fn normalize_key_folds_case_and_trims() {
    assert_eq!(normalize_key(b"  The Card SHOP  "), b"the card shop".to_vec());
    assert_eq!(normalize_key(b"XX"), b"xx".to_vec());
    assert_eq!(normalize_key(b"   "), b"".to_vec());
}

#[test]
fn league_number_parses_plain_decimal() {
    assert_eq!(parse_optional_i32(b"42"), Some(42));
    assert_eq!(parse_optional_i32(b" 7 "), Some(7));
    assert_eq!(parse_optional_i32(b"+12"), Some(12));
    assert_eq!(parse_optional_i32(b"-5"), Some(-5));
    assert_eq!(parse_optional_i32(b"0"), Some(0));
}

#[test]
fn league_number_blank_or_malformed_is_absent() {
    assert_eq!(parse_optional_i32(b""), None);
    assert_eq!(parse_optional_i32(b"   "), None);
    assert_eq!(parse_optional_i32(b"abc"), None);
    assert_eq!(parse_optional_i32(b"12abc"), None);
    assert_eq!(parse_optional_i32(b"1 2"), None);
    assert_eq!(parse_optional_i32(b"+"), None);
    assert_eq!(parse_optional_i32(b"-"), None);
}

#[test]
fn league_number_range_matches_i32() {
    assert_eq!(parse_optional_i32(b"2147483647"), Some(i32::MAX));
    assert_eq!(parse_optional_i32(b"2147483648"), None);
    assert_eq!(parse_optional_i32(b"-2147483648"), Some(i32::MIN));
    assert_eq!(parse_optional_i32(b"-2147483649"), None);
    assert_eq!(parse_optional_i32(b"99999999999999999999"), None);
}
