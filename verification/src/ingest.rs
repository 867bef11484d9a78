//! A whole ingestion run against the in-memory store: seed the dedup
//! cache from the persisted organizers, then stream the feed lines
//! through the pipeline, persisting new organizers as rows demand them
//! and flushing full chunks, with any remainder flushed at the end.

use vstd::prelude::*;
use crate::datetime::Stamp;
use crate::event::row_guid_ok;
use crate::event::row_stamp_ok;
use crate::guid::Guid;
use crate::guid::guid_of_text;
use crate::store::batch_has_guid;
use crate::store::has_guid;
use crate::text::trim_spec;
use crate::feed::parse_row;
use crate::feed::row_of_line;
use crate::pipeline::AdmitOutcome;
use crate::pipeline::Pipeline;
use crate::pipeline::RowPlan;
use crate::record::KeyV;
use crate::record::build_organizer_key;
use crate::record::key_of_record;
use crate::resolver::OrganizerCache;
use crate::store::MemStore;
use crate::store::StoreV;
use crate::store::StoredOrganizerV;
use crate::store::lemma_upsert_batch_keeps;
use crate::store::lemma_upsert_batch_no_growth;
use crate::store::organizer_values_from_model;
use crate::store::store_wf;
use crate::text::key_norm_spec;

verus! {

/// The dedup key a persisted organizer row carries.
pub open spec fn stored_key(o: StoredOrganizerV) -> KeyV {
    KeyV {
        name: key_norm_spec(o.name),
        address: key_norm_spec(o.address),
        city: key_norm_spec(o.city),
        area: key_norm_spec(o.area),
        country: key_norm_spec(o.country),
    }
}

/// Whether a feed line yields a persisted event: it decodes into a row
/// whose timestamp and identifier are both well-formed.
pub open spec fn row_accepted(line: Seq<u8>) -> bool {
    match row_of_line(line) {
        Some(r) => row_stamp_ok(r) && row_guid_ok(r),
        None => false,
    }
}

/// The identifier an accepted feed line carries.
pub open spec fn line_guid(line: Seq<u8>) -> Guid {
    match row_of_line(line) {
        Some(r) => guid_of_text(trim_spec(r.guid)),
        None => Guid { hi: 0, lo: 0 },
    }
}

/// Whether every decodable row's organizer key is already persisted.
/// A run leaves its feed covered; a feed covered beforehand resolves
/// every organizer from the seeded cache and creates none.
pub open spec fn keys_covered(st: StoreV, lines: Seq<Seq<u8>>) -> bool {
    forall|j: int|
        0 <= j < lines.len() ==> match row_of_line(#[trigger] lines[j]) {
            Some(r) => exists|m: int|
                0 <= m < st.organizers.len() && stored_key(#[trigger] st.organizers[m])
                    == key_of_record(r),
            None => true,
        }
}

/// Whether every accepted line's identifier is already persisted.
/// A run leaves its feed covered; a feed covered beforehand updates
/// rows in place and adds none.
pub open spec fn guids_covered(st: StoreV, lines: Seq<Seq<u8>>) -> bool {
    forall|j: int|
        0 <= j < lines.len() && row_accepted(#[trigger] lines[j]) ==> has_guid(
            st.events,
            line_guid(lines[j]),
        )
}

/// How many lines of the feed yield persisted events.
pub open spec fn count_accepted(lines: Seq<Seq<u8>>) -> int
    decreases lines.len(),
{
    if lines.len() == 0 {
        0
    } else {
        count_accepted(lines.drop_last()) + if row_accepted(lines.last()) {
            1int
        } else {
            0int
        }
    }
}

/// The accepted-line count lies between zero and the line count.
pub proof fn lemma_count_accepted_bounds(lines: Seq<Seq<u8>>)
    ensures
        0 <= count_accepted(lines) <= lines.len(),
    decreases lines.len(),
{
    if lines.len() > 0 {
        lemma_count_accepted_bounds(lines.drop_last());
    }
}

/// Seeds the run cache from all persisted organizers, keyed by the same
/// normalization as the rows, the earliest row winning a repeated key.
pub fn load_existing_organizers(store: &MemStore) -> (c: OrganizerCache)
    ensures
        c.wf(),
        forall|i: int|
            0 <= i < store@.organizers.len() ==> c@.contains_key(
                stored_key(#[trigger] store@.organizers[i]),
            ),
        forall|k: KeyV|
            c@.contains_key(k) ==> exists|i: int|
                0 <= i < store@.organizers.len() && stored_key(#[trigger] store@.organizers[i])
                    == k,
        forall|i: int|
            0 <= i < store@.organizers.len() && (forall|j: int|
                0 <= j < i ==> stored_key(store@.organizers[j]) != stored_key(
                    store@.organizers[i],
                )) ==> c@[stored_key(#[trigger] store@.organizers[i])] == store@.organizers[i].id,
{
    let mut c = OrganizerCache::new();
    let n = store.organizers.len();
    let mut i: usize = 0;
    while i < n
        invariant
            i <= n,
            n == store@.organizers.len(),
            c.wf(),
            forall|k: int|
                0 <= k < i ==> c@.contains_key(stored_key(#[trigger] store@.organizers[k])),
            forall|k: KeyV|
                c@.contains_key(k) ==> exists|m: int|
                    0 <= m < i && stored_key(#[trigger] store@.organizers[m]) == k,
            forall|k: int|
                0 <= k < i && (forall|j: int|
                    0 <= j < k ==> stored_key(store@.organizers[j]) != stored_key(
                        store@.organizers[k],
                    )) ==> c@[stored_key(#[trigger] store@.organizers[k])]
                    == store@.organizers[k].id,
        decreases n - i,
    {
        let values = organizer_values_from_model(&store.organizers[i]);
        let key = build_organizer_key(&values);
        proof {
            assert(key@ =~= stored_key(store@.organizers[i as int]));
        }
        let id = store.organizers[i].id;
        c.insert_if_absent(key, id);
        i = i + 1;
    }
    c
}

/// Runs one ingestion over the feed lines (the header line already
/// dropped): per-row fault policy, organizer dedup against the seeded
/// cache, chunked upserts, and a final count of ingested events.
/// Existing rows are never deleted; an event row keeps its id, its
/// identifier, its owning organizer and its creation time; organizer
/// rows are never changed. A run leaves its own feed covered, and over
/// a feed that is covered already — as an unchanged feed is after one
/// run — it creates no organizer row and no event row: re-ingestion is
/// idempotent up to the update times.
pub fn run_ingestion(store: &mut MemStore, lines: &Vec<Vec<u8>>, now: Stamp) -> (total: u64)
    requires
        store_wf(old(store)@),
        old(store)@.next_event_id + lines@.len() <= i32::MAX,
        old(store)@.next_organizer_id + lines@.len() <= i32::MAX,
    ensures
        store_wf(final(store)@),
        total == count_accepted(lines@.map_values(|l: Vec<u8>| l@)),
        keys_covered(final(store)@, lines@.map_values(|l: Vec<u8>| l@)),
        guids_covered(final(store)@, lines@.map_values(|l: Vec<u8>| l@)),
        keys_covered(old(store)@, lines@.map_values(|l: Vec<u8>| l@)) ==> final(store)@.organizers
            == old(store)@.organizers,
        guids_covered(old(store)@, lines@.map_values(|l: Vec<u8>| l@))
            ==> final(store)@.events.len() == old(store)@.events.len(),
        final(store)@.events.len() >= old(store)@.events.len(),
        forall|i: int|
            0 <= i < old(store)@.events.len() ==> {
                let row = #[trigger] final(store)@.events[i];
                &&& row.id == old(store)@.events[i].id
                &&& row.guid == old(store)@.events[i].guid
                &&& row.organizer_id == old(store)@.events[i].organizer_id
                &&& row.created_at == old(store)@.events[i].created_at
            },
        final(store)@.organizers.len() >= old(store)@.organizers.len(),
        forall|i: int|
            0 <= i < old(store)@.organizers.len() ==> #[trigger] final(store)@.organizers[i] == old(
                store,
            )@.organizers[i],
{
    let ghost lv = lines@.map_values(|l: Vec<u8>| l@);
    let cache = load_existing_organizers(store);
    let mut p = Pipeline::new(cache);
    let n = lines.len();
    let mut i: usize = 0;
    proof {
        assert(lv.subrange(0, 0) =~= Seq::<Seq<u8>>::empty());
    }
    while i < n
        invariant
            i <= n,
            n == lines@.len(),
            lv == lines@.map_values(|l: Vec<u8>| l@),
            store_wf(store@),
            p.wf(),
            p.total + p.buffered().len() == count_accepted(lv.subrange(0, i as int)),
            p.total + p.buffered().len() <= i,
            forall|j: int|
                0 <= j < i && row_accepted(#[trigger] lv[j]) ==> has_guid(
                    store@.events,
                    line_guid(lv[j]),
                ) || batch_has_guid(p.buffered(), line_guid(lv[j])),
            forall|k: KeyV|
                #[trigger] p.cache@.contains_key(k) ==> exists|m: int|
                    0 <= m < store@.organizers.len() && stored_key(#[trigger] store@.organizers[m])
                        == k,
            forall|j: int|
                0 <= j < i ==> match row_of_line(#[trigger] lv[j]) {
                    Some(r) => p.cache@.contains_key(key_of_record(r)),
                    None => true,
                },
            forall|m: int|
                0 <= m < old(store)@.organizers.len() ==> p.cache@.contains_key(
                    stored_key(#[trigger] old(store)@.organizers[m]),
                ),
            keys_covered(old(store)@, lv) ==> store@.organizers == old(store)@.organizers,
            guids_covered(old(store)@, lv) ==> {
                &&& store@.events.len() == old(store)@.events.len()
                &&& (forall|g: Guid|
                    #[trigger] has_guid(store@.events, g) <==> has_guid(old(store)@.events, g))
                &&& (forall|q: int|
                    0 <= q < p.buffered().len() ==> has_guid(
                        store@.events,
                        (#[trigger] p.buffered()[q]).guid,
                    ))
            },
            store@.next_event_id + p.buffered().len() + (n - i) <= i32::MAX,
            store@.next_organizer_id + (n - i) <= i32::MAX,
            store@.events.len() >= old(store)@.events.len(),
            forall|k: int|
                0 <= k < old(store)@.events.len() ==> {
                    let row = #[trigger] store@.events[k];
                    &&& row.id == old(store)@.events[k].id
                    &&& row.guid == old(store)@.events[k].guid
                    &&& row.organizer_id == old(store)@.events[k].organizer_id
                    &&& row.created_at == old(store)@.events[k].created_at
                },
            store@.organizers.len() >= old(store)@.organizers.len(),
            forall|k: int|
                0 <= k < old(store)@.organizers.len() ==> #[trigger] store@.organizers[k] == old(
                    store,
                )@.organizers[k],
        decreases n - i,
    {
        let ghost pre = lv.subrange(0, i as int);
        proof {
            assert(lv.subrange(0, i as int + 1).drop_last() =~= pre);
            assert(lv.subrange(0, i as int + 1).last() == lv[i as int]);
            assert(lines@[i as int]@ == lv[i as int]);
        }
        match parse_row(lines[i].as_slice()) {
            None => {
                // malformed row structure: logged and dropped, the run goes on
            },
            Some(rec) => {
                let ghost orgs_before = store@.organizers;
                let organizer_id = match p.plan_row(&rec) {
                    RowPlan::UseCached(id) => id,
                    RowPlan::NeedInsert(values) => {
                        proof {
                            // over a covered feed the seeded cache answers
                            // every key, so this branch is unreachable
                            if keys_covered(old(store)@, lv) {
                                let m = choose|m: int|
                                    0 <= m < old(store)@.organizers.len() && stored_key(
                                        old(store)@.organizers[m],
                                    ) == key_of_record(rec@);
                                assert(p.cache@.contains_key(
                                    stored_key(old(store)@.organizers[m]),
                                ));
                                assert(false);
                            }
                        }
                        let id = store.insert_organizer(&values, now);
                        proof {
                            let orgs = store@.organizers;
                            assert(orgs[orgs.len() - 1] == orgs.last());
                            assert(stored_key(orgs[orgs.len() - 1]) =~= key_of_record(rec@));
                            assert forall|k: KeyV| #[trigger] p.cache@.contains_key(k) implies
                                exists|m: int|
                                    0 <= m < orgs.len() && stored_key(#[trigger] orgs[m])
                                        == k by {
                                let m = choose|m: int|
                                    0 <= m < orgs_before.len() && stored_key(
                                        #[trigger] orgs_before[m],
                                    ) == k;
                                assert(orgs[m] == orgs_before[m]);
                                assert(stored_key(orgs[m]) == k);
                            }
                        }
                        id
                    },
                };
                let ghost buf_before = p.buffered();
                match p.admit_row(&rec, organizer_id) {
                    AdmitOutcome::Skipped(_) => {
                        // invalid timestamp or identifier: the row is dropped
                    },
                    AdmitOutcome::Accepted => {
                        proof {
                            let e = crate::event::built_event(rec@, organizer_id);
                            assert(p.buffered() == buf_before.push(e));
                            assert(e.guid == line_guid(lv[i as int]));
                            assert(p.buffered()[buf_before.len() as int] == e);
                            assert forall|g: Guid| batch_has_guid(buf_before, g) implies
                                batch_has_guid(p.buffered(), g) by {
                                let k = choose|k: int|
                                    0 <= k < buf_before.len() && buf_before[k].guid == g;
                                assert(p.buffered()[k].guid == g);
                            }
                            if guids_covered(old(store)@, lv) {
                                assert(row_accepted(lv[i as int]));
                                assert(has_guid(old(store)@.events, line_guid(lv[i as int])));
                                assert forall|q: int|
                                    0 <= q < p.buffered().len() implies has_guid(
                                    store@.events,
                                    (#[trigger] p.buffered()[q]).guid,
                                ) by {
                                    if q < buf_before.len() {
                                        assert(p.buffered()[q] == buf_before[q]);
                                    }
                                }
                            }
                        }
                    },
                    AdmitOutcome::Flushed(chunk) => {
                        let ghost cv = chunk@.map_values(|e: crate::event::EventData| e@);
                        proof {
                            lemma_upsert_batch_keeps(store@, cv, now);
                            let e = crate::event::built_event(rec@, organizer_id);
                            assert(cv == buf_before.push(e));
                            assert(e.guid == line_guid(lv[i as int]));
                            assert(cv[buf_before.len() as int] == e);
                            assert forall|g: Guid| batch_has_guid(buf_before, g) implies
                                batch_has_guid(cv, g) by {
                                let k = choose|k: int|
                                    0 <= k < buf_before.len() && buf_before[k].guid == g;
                                assert(cv[k].guid == g);
                            }
                            if guids_covered(old(store)@, lv) {
                                assert(row_accepted(lv[i as int]));
                                assert(has_guid(store@.events, e.guid));
                                assert forall|q: int|
                                    0 <= q < cv.len() implies has_guid(
                                    store@.events,
                                    (#[trigger] cv[q]).guid,
                                ) by {
                                    if q < buf_before.len() {
                                        assert(cv[q] == buf_before[q]);
                                    }
                                }
                                lemma_upsert_batch_no_growth(store@, cv, now);
                            }
                        }
                        store.upsert_events(&chunk, now);
                    },
                }
            },
        }
        i = i + 1;
    }
    proof {
        assert(lv.subrange(0, n as int) =~= lv);
        lemma_count_accepted_bounds(lv);
    }
    let ghost buf_final = p.buffered();
    match p.finish() {
        Some(chunk) => {
            proof {
                let cv = chunk@.map_values(|e: crate::event::EventData| e@);
                lemma_upsert_batch_keeps(store@, cv, now);
                assert(cv == buf_final);
                if guids_covered(old(store)@, lv) {
                    lemma_upsert_batch_no_growth(store@, cv, now);
                }
            }
            store.upsert_events(&chunk, now);
        },
        None => {},
    }
    proof {
        assert forall|j: int|
            0 <= j < lv.len() && row_accepted(#[trigger] lv[j]) implies has_guid(
            store@.events,
            line_guid(lv[j]),
        ) by {}
        assert(guids_covered(store@, lv));
        assert forall|j: int| 0 <= j < lv.len() implies match row_of_line(#[trigger] lv[j]) {
            Some(r) => exists|m: int|
                0 <= m < store@.organizers.len() && stored_key(#[trigger] store@.organizers[m])
                    == key_of_record(r),
            None => true,
        } by {
            if row_of_line(lv[j]) is Some {
                let r = row_of_line(lv[j]).unwrap();
                assert(p.cache@.contains_key(key_of_record(r)));
            }
        }
        assert(keys_covered(store@, lv));
    }
    p.total()
}

} // verus!
