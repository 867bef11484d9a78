use poke_events::parse_row;

#[test]
fn row_with_thirteen_fields_decodes() {
    let line = b"League Cup;Spring Cup;The Card Shop;Main St 1;ZH;Rotterdam;NL;spring-cup;01234567-89ab-cdef-0123-456789abcdef;51.9;4.4;2024-05-17 19:30:00;310";
    let rec = parse_row(line).unwrap();
    assert_eq!(rec.kind, b"League Cup".to_vec());
    assert_eq!(rec.name, b"Spring Cup".to_vec());
    assert_eq!(rec.shop, b"The Card Shop".to_vec());
    assert_eq!(rec.street_address, b"Main St 1".to_vec());
    assert_eq!(rec.state, b"ZH".to_vec());
    assert_eq!(rec.city, b"Rotterdam".to_vec());
    assert_eq!(rec.country_code, b"NL".to_vec());
    assert_eq!(rec.pokemon_event_slug, b"spring-cup".to_vec());
    assert_eq!(rec.guid, b"01234567-89ab-cdef-0123-456789abcdef".to_vec());
    assert_eq!(rec.latitude, b"51.9".to_vec());
    assert_eq!(rec.longitude, b"4.4".to_vec());
    assert_eq!(rec.happening_at, b"2024-05-17 19:30:00".to_vec());
    assert_eq!(rec.league, b"310".to_vec());
}

#[test]
fn row_with_wrong_column_count_is_a_decode_failure() {
    // twelve fields
    assert!(parse_row(b"a;b;c;d;e;f;g;h;i;j;k;l").is_none());
    // fourteen fields
    assert!(parse_row(b"a;b;c;d;e;f;g;h;i;j;k;l;m;n").is_none());
    // one field
    assert!(parse_row(b"no delimiters here").is_none());
    // empty line is one empty field
    assert!(parse_row(b"").is_none());
}

#[test]
fn empty_fields_are_kept() {
    let rec = parse_row(b";;;;;;;;;;;;").unwrap();
    assert_eq!(rec.kind, Vec::<u8>::new());
    assert_eq!(rec.league, Vec::<u8>::new());
}
