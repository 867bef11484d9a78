use poke_events::EventKind;

#[test]
fn test_event_kind_serialize() {
    assert_eq!(
        EventKind::from_str(b"League Challenge VG"),
        Ok(EventKind::LeagueChallengeVG)
    );
    assert_eq!(
        EventKind::from_str(b"League Cup VG"),
        Ok(EventKind::LeagueCupVG)
    );
    assert_eq!(
        EventKind::from_str(b"GO Challenge"),
        Ok(EventKind::GoChallenge)
    );
    assert_eq!(EventKind::from_str(b"League Cup"), Ok(EventKind::LeagueCup));
    assert_eq!(
        EventKind::from_str(b"Pre Release"),
        Ok(EventKind::PreRelease)
    );
    assert_eq!(EventKind::from_str(b"GO Cup"), Ok(EventKind::GoCup));
    assert_eq!(
        EventKind::from_str(b"League Challenge"),
        Ok(EventKind::LeagueChallenge)
    );
    assert_eq!(
        EventKind::from_str(b"Other"),
        Ok(EventKind::Other(b"Other".to_vec()))
    );
}

#[test]
fn unknown_kind_keeps_text_verbatim() {
    assert_eq!(
        EventKind::parse(b"Regional Showdown 2024"),
        EventKind::Other(b"Regional Showdown 2024".to_vec())
    );
    // trimmed, but otherwise untouched: case and inner spacing kept
    assert_eq!(
        EventKind::parse(b"  LEAGUE   cup  "),
        EventKind::Other(b"LEAGUE   cup".to_vec())
    );
}

#[test]
fn kind_match_is_case_sensitive_and_trimmed() {
    assert_eq!(EventKind::parse(b"  GO Cup  "), EventKind::GoCup);
    assert_eq!(
        EventKind::parse(b"go cup"),
        EventKind::Other(b"go cup".to_vec())
    );
}

#[test]
fn kind_name_bytes_round_trip() {
    let kinds = vec![
        EventKind::LeagueChallengeVG,
        EventKind::LeagueCupVG,
        EventKind::GoChallenge,
        EventKind::LeagueCup,
        EventKind::PreRelease,
        EventKind::GoCup,
        EventKind::LeagueChallenge,
    ];
    for k in kinds {
        let name = k.name_bytes();
        assert_eq!(EventKind::parse(&name), k);
    }
    assert_eq!(
        EventKind::Other(b"anything".to_vec()).name_bytes(),
        b"anything".to_vec()
    );
}
