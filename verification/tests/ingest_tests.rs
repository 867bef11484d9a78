use poke_events::{
    run_ingestion, AdmitOutcome, MemStore, OrganizerCache, Pipeline, RowPlan, Stamp,
};

fn feed_line(kind: &str, name: &str, shop: &str, guid: &str, when: &str) -> Vec<u8> {
    format!("{kind};{name};{shop};Main St 1;ZH;Rotterdam;NL;slug;{guid};51.9;4.4;{when};310")
        .into_bytes()
}

fn nth_guid(i: u64) -> String {
    format!("00000000-0000-0000-0000-{:012x}", i)
}

fn noon(day: u8) -> Stamp {
    Stamp { year: 2024, month: 6, day, hour: 12, minute: 0, second: 0 }
}

#[test]
fn chunk_boundary_flushes_hundred_hundred_fifty() {
    let cache = OrganizerCache::new();
    let mut p = Pipeline::new(cache);
    let mut flushes: Vec<usize> = Vec::new();
    for i in 0..250u64 {
        let line = feed_line(
            "League Cup",
            "Some Event",
            "The Card Shop",
            &nth_guid(i),
            "2024-05-17 19:30:00",
        );
        let rec = poke_events::parse_row(&line).unwrap();
        let organizer_id = match p.plan_row(&rec) {
            RowPlan::UseCached(id) => id,
            RowPlan::NeedInsert(_) => 1,
        };
        match p.admit_row(&rec, organizer_id) {
            AdmitOutcome::Skipped(_) => panic!("no row of this feed may be skipped"),
            AdmitOutcome::Accepted => {}
            AdmitOutcome::Flushed(chunk) => flushes.push(chunk.len()),
        }
    }
    if let Some(rest) = p.finish() {
        flushes.push(rest.len());
    }
    assert_eq!(flushes, vec![100, 100, 50]);
    assert_eq!(p.total(), 250);
}

#[test]
fn fault_isolation_skips_only_the_bad_row() {
    let mut lines = Vec::new();
    for i in 0..5u64 {
        let guid = if i == 2 {
            "this-is-not-a-guid".to_string()
        } else {
            nth_guid(i)
        };
        lines.push(feed_line(
            "League Cup",
            &format!("Event {i}"),
            "The Card Shop",
            &guid,
            "2024-05-17 19:30:00",
        ));
    }
    let mut store = MemStore::new();
    let total = run_ingestion(&mut store, &lines, noon(1));
    assert_eq!(total, 4);
    assert_eq!(store.events.len(), 4);
}

#[test]
fn malformed_timestamp_row_is_skipped() {
    let good = feed_line("GO Cup", "Good", "Shop A", &nth_guid(1), "2024-05-17 19:30:00");
    let bad = feed_line("GO Cup", "Bad", "Shop A", &nth_guid(2), "not-a-date");
    let lines = vec![good, bad];
    let mut store = MemStore::new();
    let total = run_ingestion(&mut store, &lines, noon(1));
    assert_eq!(total, 1);
    assert_eq!(store.events.len(), 1);
    assert_eq!(store.events[0].name, b"Good".to_vec());
}

#[test]
fn ingestion_is_idempotent_over_an_unchanged_feed() {
    let mut lines = Vec::new();
    for i in 0..7u64 {
        lines.push(feed_line(
            "League Challenge",
            &format!("Event {i}"),
            if i % 2 == 0 { "Shop A" } else { "Shop B" },
            &nth_guid(i),
            "2024-05-17 19:30:00",
        ));
    }
    let mut store = MemStore::new();
    let total1 = run_ingestion(&mut store, &lines, noon(1));
    let events_after_1 = store.events.len();
    let organizers_after_1 = store.organizers.len();
    let total2 = run_ingestion(&mut store, &lines, noon(2));
    assert_eq!(total1, 7);
    assert_eq!(total2, total1);
    assert_eq!(store.events.len(), events_after_1);
    assert_eq!(store.organizers.len(), organizers_after_1);
    assert_eq!(store.organizers.len(), 2);
}

#[test]
fn organizer_dedup_ignores_case_and_whitespace() {
    let a = feed_line("GO Cup", "One", "The Card Shop", &nth_guid(1), "2024-05-17 19:30:00");
    let b = feed_line("GO Cup", "Two", "  the card SHOP ", &nth_guid(2), "2024-05-17 19:30:00");
    let lines = vec![a, b];
    let mut store = MemStore::new();
    let total = run_ingestion(&mut store, &lines, noon(1));
    assert_eq!(total, 2);
    assert_eq!(store.organizers.len(), 1);
    assert_eq!(store.events.len(), 2);
    assert_eq!(store.events[0].organizer_id, store.events[1].organizer_id);
}

#[test]
fn same_guid_updates_in_place_second_value_wins() {
    let guid = nth_guid(9);
    let first = feed_line("GO Cup", "First Name", "Shop A", &guid, "2024-05-17 19:30:00");
    let second = feed_line("GO Cup", "Second Name", "Shop A", &guid, "2024-05-18 10:00:00");
    let mut store = MemStore::new();
    let t1 = run_ingestion(&mut store, &vec![first], noon(1));
    let created = store.events[0].created_at;
    let t2 = run_ingestion(&mut store, &vec![second], noon(3));
    assert_eq!(t1, 1);
    assert_eq!(t2, 1);
    assert_eq!(store.events.len(), 1);
    assert_eq!(store.events[0].name, b"Second Name".to_vec());
    assert_eq!(store.events[0].created_at, created);
    assert_eq!(store.events[0].created_at, noon(1));
    assert_eq!(store.events[0].updated_at, noon(3));
    assert!(store.events[0].created_at.le(&store.events[0].updated_at));
    assert!(!store.events[0].updated_at.le(&store.events[0].created_at));
}

#[test]
fn same_guid_twice_in_one_feed_keeps_one_row() {
    let guid = nth_guid(4);
    let first = feed_line("GO Cup", "Alpha", "Shop A", &guid, "2024-05-17 19:30:00");
    let second = feed_line("GO Cup", "Beta", "Shop A", &guid, "2024-05-18 10:00:00");
    let lines = vec![first, second];
    let mut store = MemStore::new();
    let total = run_ingestion(&mut store, &lines, noon(1));
    // both rows validate and are counted; the store keeps one row, the
    // later sighting's values standing
    assert_eq!(total, 2);
    assert_eq!(store.events.len(), 1);
    assert_eq!(store.events[0].name, b"Beta".to_vec());
}

#[test]
fn reapplying_a_batch_is_a_no_op_success() {
    let line = feed_line("GO Cup", "Alpha", "Shop A", &nth_guid(5), "2024-05-17 19:30:00");
    let rec = poke_events::parse_row(&line).unwrap();
    let event = poke_events::build(&rec, 1).unwrap();
    let mut store = MemStore::new();
    let batch = vec![event];
    store.upsert_events(&batch, noon(1));
    assert_eq!(store.events.len(), 1);
    let event_again = poke_events::build(&rec, 1).unwrap();
    let batch_again = vec![event_again];
    store.upsert_events(&batch_again, noon(2));
    assert_eq!(store.events.len(), 1);
    assert_eq!(store.events[0].updated_at, noon(2));
    assert_eq!(store.events[0].created_at, noon(1));
}

#[test]
fn large_feed_is_fully_persisted_through_chunks() {
    let mut lines = Vec::new();
    for i in 0..250u64 {
        lines.push(feed_line(
            "League Cup",
            &format!("Event {i}"),
            "The Card Shop",
            &nth_guid(i),
            "2024-05-17 19:30:00",
        ));
    }
    let mut store = MemStore::new();
    let total = run_ingestion(&mut store, &lines, noon(1));
    assert_eq!(total, 250);
    assert_eq!(store.events.len(), 250);
    assert_eq!(store.organizers.len(), 1);
    assert_eq!(store.events[0].name, b"Event 0".to_vec());
    assert_eq!(store.events[249].name, b"Event 249".to_vec());
}

#[test]
fn organizers_are_reused_across_runs() {
    let first = vec![feed_line("GO Cup", "One", "Shop A", &nth_guid(1), "2024-05-17 19:30:00")];
    let second = vec![
        feed_line("GO Cup", "One", "Shop A", &nth_guid(1), "2024-05-17 19:30:00"),
        feed_line("GO Cup", "Two", "SHOP A", &nth_guid(2), "2024-05-17 19:30:00"),
        feed_line("GO Cup", "Three", "Shop B", &nth_guid(3), "2024-05-17 19:30:00"),
    ];
    let mut store = MemStore::new();
    run_ingestion(&mut store, &first, noon(1));
    assert_eq!(store.organizers.len(), 1);
    let total = run_ingestion(&mut store, &second, noon(2));
    assert_eq!(total, 3);
    assert_eq!(store.organizers.len(), 2);
    assert_eq!(store.events.len(), 3);
    // the second run resolved "SHOP A" to the organizer persisted first
    assert_eq!(store.events[1].organizer_id, store.events[0].organizer_id);
    assert_ne!(store.events[2].organizer_id, store.events[0].organizer_id);
}

#[test]
fn organizer_fallbacks_fill_blank_fields() {
    // blank shop, state, city, country; coordinates unparsable
    let line = b"GO Cup;Event;;Main St 1;;;;slug;00000000-0000-0000-0000-000000000007;;;2024-05-17 19:30:00;".to_vec();
    let lines = vec![line];
    let mut store = MemStore::new();
    let total = run_ingestion(&mut store, &lines, noon(1));
    assert_eq!(total, 1);
    assert_eq!(store.organizers.len(), 1);
    assert_eq!(store.organizers[0].name, b"Unknown organizer".to_vec());
    assert_eq!(store.organizers[0].area, b"Unknown area".to_vec());
    assert_eq!(store.organizers[0].city, b"Unknown city".to_vec());
    assert_eq!(store.organizers[0].country, b"XX".to_vec());
    assert_eq!(store.organizers[0].address, b"Main St 1".to_vec());
    assert_eq!(store.events[0].league, None);
}
