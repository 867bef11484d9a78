use poke_events::{
    pair_with_organizers, parse_row, search_page_params, total_is_known, MemStore, Stamp,
};

fn noon() -> Stamp {
    Stamp { year: 2024, month: 6, day: 1, hour: 12, minute: 0, second: 0 }
}

#[test]
fn page_params_floor_page_and_cap_size() {
    assert_eq!(search_page_params(0, 20), (1, 20, 0));
    assert_eq!(search_page_params(1, 20), (1, 20, 0));
    assert_eq!(search_page_params(3, 20), (3, 20, 40));
    assert_eq!(search_page_params(2, 500), (2, 100, 100));
    assert_eq!(search_page_params(1, 0), (1, 0, 0));
}

#[test]
fn total_is_known_on_a_short_first_page() {
    assert!(total_is_known(1, 20, 7));
    assert!(total_is_known(0, 20, 19));
    assert!(!total_is_known(1, 20, 20));
    assert!(!total_is_known(2, 20, 7));
}

#[test]
fn events_pair_with_their_organizers() {
    let mut store = MemStore::new();
    let lines = vec![
        feed_line("GO Cup", "One", "Shop A", "00000000-0000-0000-0000-000000000001"),
        feed_line("GO Cup", "Two", "Shop B", "00000000-0000-0000-0000-000000000002"),
        feed_line("GO Cup", "Three", "Shop A", "00000000-0000-0000-0000-000000000003"),
    ];
    poke_events::run_ingestion(&mut store, &lines, noon());
    let full = pair_with_organizers(&store.events, &store.organizers);
    assert_eq!(full.len(), 3);
    assert_eq!(full[0].event.name, b"One".to_vec());
    assert_eq!(full[0].organizer.name, b"Shop A".to_vec());
    assert_eq!(full[1].organizer.name, b"Shop B".to_vec());
    assert_eq!(full[2].organizer.name, b"Shop A".to_vec());
}

#[test]
fn events_without_a_fetched_organizer_are_dropped() {
    let mut store = MemStore::new();
    let lines = vec![
        feed_line("GO Cup", "One", "Shop A", "00000000-0000-0000-0000-000000000001"),
        feed_line("GO Cup", "Two", "Shop B", "00000000-0000-0000-0000-000000000002"),
    ];
    poke_events::run_ingestion(&mut store, &lines, noon());
    // hand over only the second organizer
    let only_second = vec![store.organizers[1].clone_row()];
    let full = pair_with_organizers(&store.events, &only_second);
    assert_eq!(full.len(), 1);
    assert_eq!(full[0].event.name, b"Two".to_vec());
}

fn feed_line(kind: &str, name: &str, shop: &str, guid: &str) -> Vec<u8> {
    format!("{kind};{name};{shop};Main St 1;ZH;Rotterdam;NL;slug;{guid};51.9;4.4;2024-05-17 19:30:00;310")
        .into_bytes()
}
