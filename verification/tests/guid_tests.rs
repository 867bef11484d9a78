use poke_events::parse_guid;

#[test]
fn guid_parses_canonical_text() {
    let g = parse_guid(b"01234567-89ab-cdef-0123-456789abcdef").unwrap();
    assert_eq!(g.hi, 0x0123456789abcdef);
    assert_eq!(g.lo, 0x0123456789abcdef);
}

#[test]
fn guid_hex_case_is_accepted_and_equal() {
    let a = parse_guid(b"deadbeef-0000-1111-2222-333344445555").unwrap();
    let b = parse_guid(b"DEADBEEF-0000-1111-2222-333344445555").unwrap();
    assert_eq!(a, b);
}

#[test]
fn guid_wrong_length_is_rejected() {
    assert_eq!(parse_guid(b""), None);
    assert_eq!(parse_guid(b"0123456789abcdef0123456789abcdef"), None);
    assert_eq!(parse_guid(b"01234567-89ab-cdef-0123-456789abcde"), None);
    assert_eq!(parse_guid(b"01234567-89ab-cdef-0123-456789abcdef0"), None);
}

#[test]
fn guid_misplaced_hyphen_is_rejected() {
    assert_eq!(parse_guid(b"0123456789-ab-cdef-0123-456789abcdef"), None);
    assert_eq!(parse_guid(b"01234567 89ab cdef 0123 456789abcdef"), None);
    assert_eq!(parse_guid(b"01234567-89ab-cdef-0123-456789abcde-"), None);
}

#[test]
fn guid_non_hex_byte_is_rejected() {
    assert_eq!(parse_guid(b"0123456g-89ab-cdef-0123-456789abcdef"), None);
    assert_eq!(parse_guid(b"01234567-89ab-cdef-0123-456789abcdeZ"), None);
}

#[test]
fn guid_zero_parses() {
    let g = parse_guid(b"00000000-0000-0000-0000-000000000000").unwrap();
    assert_eq!(g.hi, 0);
    assert_eq!(g.lo, 0);
}
