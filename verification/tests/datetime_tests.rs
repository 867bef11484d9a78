use poke_events::{parse_stamp, Stamp};

#[test]
fn stamp_parses_the_fixed_pattern() {
    let t = parse_stamp(b"2024-05-17 19:30:05").unwrap();
    assert_eq!(t.year, 2024);
    assert_eq!(t.month, 5);
    assert_eq!(t.day, 17);
    assert_eq!(t.hour, 19);
    assert_eq!(t.minute, 30);
    assert_eq!(t.second, 5);
}

#[test]
fn stamp_rejects_free_text() {
    assert_eq!(parse_stamp(b"not-a-date"), None);
    assert_eq!(parse_stamp(b""), None);
    assert_eq!(parse_stamp(b"2024-05-17T19:30:05"), None);
    assert_eq!(parse_stamp(b"2024-05-17 19:30"), None);
    assert_eq!(parse_stamp(b"2024-05-17 19:30:05 "), None);
}

#[test]
fn stamp_checks_the_calendar() {
    assert!(parse_stamp(b"2024-02-29 00:00:00").is_some());
    assert_eq!(parse_stamp(b"2023-02-29 00:00:00"), None);
    assert_eq!(parse_stamp(b"2100-02-29 00:00:00"), None);
    assert!(parse_stamp(b"2000-02-29 00:00:00").is_some());
    assert_eq!(parse_stamp(b"2024-13-01 00:00:00"), None);
    assert_eq!(parse_stamp(b"2024-00-01 00:00:00"), None);
    assert_eq!(parse_stamp(b"2024-04-31 00:00:00"), None);
    assert_eq!(parse_stamp(b"2024-01-00 00:00:00"), None);
}

#[test]
fn stamp_checks_the_clock() {
    assert_eq!(parse_stamp(b"2024-05-17 24:00:00"), None);
    assert_eq!(parse_stamp(b"2024-05-17 19:60:00"), None);
    assert_eq!(parse_stamp(b"2024-05-17 19:00:60"), None);
    assert!(parse_stamp(b"2024-05-17 23:59:59").is_some());
}

#[test]
fn stamp_order_is_chronological() {
    let a = parse_stamp(b"2024-05-17 19:30:05").unwrap();
    let b = parse_stamp(b"2024-05-17 19:30:06").unwrap();
    let c = parse_stamp(b"2025-01-01 00:00:00").unwrap();
    assert!(poke_events::Stamp::le(&a, &b));
    assert!(!Stamp::le(&b, &a));
    assert!(Stamp::le(&a, &c));
    assert!(Stamp::le(&a, &a));
}
