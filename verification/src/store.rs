//! The persisted shapes and the reconciliation semantics: organizers are
//! created once per distinct key and never updated; events are upserted
//! keyed on their globally unique identifier, updating exactly the
//! mutable fields in place. An in-memory store realizes these semantics
//! for whole-pipeline runs and tests.

use vstd::prelude::*;
use crate::datetime::Stamp;
use crate::event::EventData;
use crate::event::EventDataV;
use crate::guid::Guid;
use crate::kind::EventKind;
use crate::kind::KindView;
use crate::record::OrganizerValues;

verus! {

/// A persisted organizer row. Created once per distinct organizer key;
/// never updated or deleted by the pipeline.
pub struct StoredOrganizer {
    pub id: i32,
    pub name: Vec<u8>,
    pub address: Vec<u8>,
    pub city: Vec<u8>,
    pub area: Vec<u8>,
    pub country: Vec<u8>,
    pub latitude: Vec<u8>,
    pub longitude: Vec<u8>,
    pub created_at: Stamp,
    pub updated_at: Stamp,
}

/// The mathematical form of an organizer row.
#[verifier::ext_equal]
pub struct StoredOrganizerV {
    pub id: i32,
    pub name: Seq<u8>,
    pub address: Seq<u8>,
    pub city: Seq<u8>,
    pub area: Seq<u8>,
    pub country: Seq<u8>,
    pub latitude: Seq<u8>,
    pub longitude: Seq<u8>,
    pub created_at: Stamp,
    pub updated_at: Stamp,
}

impl View for StoredOrganizer {
    type V = StoredOrganizerV;

    open spec fn view(&self) -> StoredOrganizerV {
        StoredOrganizerV {
            id: self.id,
            name: self.name@,
            address: self.address@,
            city: self.city@,
            area: self.area@,
            country: self.country@,
            latitude: self.latitude@,
            longitude: self.longitude@,
            created_at: self.created_at,
            updated_at: self.updated_at,
        }
    }
}

impl StoredOrganizer {
    /// An equal copy of this row.
    pub fn clone_row(&self) -> (r: StoredOrganizer)
        ensures
            r@ == self@,
    {
        let r = StoredOrganizer {
            id: self.id,
            name: vstd::slice::slice_to_vec(self.name.as_slice()),
            address: vstd::slice::slice_to_vec(self.address.as_slice()),
            city: vstd::slice::slice_to_vec(self.city.as_slice()),
            area: vstd::slice::slice_to_vec(self.area.as_slice()),
            country: vstd::slice::slice_to_vec(self.country.as_slice()),
            latitude: vstd::slice::slice_to_vec(self.latitude.as_slice()),
            longitude: vstd::slice::slice_to_vec(self.longitude.as_slice()),
            created_at: self.created_at,
            updated_at: self.updated_at,
        };
        proof {
            assert(r@ =~= self@);
        }
        r
    }
}

/// A persisted event row. Created on first sight of its identifier;
/// later sightings update the mutable fields; never deleted.
pub struct StoredEvent {
    pub id: i32,
    pub organizer_id: i32,
    pub kind: EventKind,
    pub name: Vec<u8>,
    pub pokemon_event_slug: Vec<u8>,
    pub guid: Guid,
    pub league: Option<i32>,
    pub happening_at: Stamp,
    pub created_at: Stamp,
    pub updated_at: Stamp,
}

impl StoredEvent {
    /// An equal copy of this row.
    pub fn clone_row(&self) -> (r: StoredEvent)
        ensures
            r@ == self@,
    {
        let r = StoredEvent {
            id: self.id,
            organizer_id: self.organizer_id,
            kind: self.kind.clone_kind(),
            name: vstd::slice::slice_to_vec(self.name.as_slice()),
            pokemon_event_slug: vstd::slice::slice_to_vec(self.pokemon_event_slug.as_slice()),
            guid: self.guid,
            league: self.league,
            happening_at: self.happening_at,
            created_at: self.created_at,
            updated_at: self.updated_at,
        };
        proof {
            assert(r@ =~= self@);
        }
        r
    }
}

/// The mathematical form of an event row.
#[verifier::ext_equal]
pub struct StoredEventV {
    pub id: i32,
    pub organizer_id: i32,
    pub kind: KindView,
    pub name: Seq<u8>,
    pub pokemon_event_slug: Seq<u8>,
    pub guid: Guid,
    pub league: Option<i32>,
    pub happening_at: Stamp,
    pub created_at: Stamp,
    pub updated_at: Stamp,
}

impl View for StoredEvent {
    type V = StoredEventV;

    open spec fn view(&self) -> StoredEventV {
        StoredEventV {
            id: self.id,
            organizer_id: self.organizer_id,
            kind: self.kind@,
            name: self.name@,
            pokemon_event_slug: self.pokemon_event_slug@,
            guid: self.guid,
            league: self.league,
            happening_at: self.happening_at,
            created_at: self.created_at,
            updated_at: self.updated_at,
        }
    }
}

/// Whether some row holds the identifier.
pub open spec fn has_guid(s: Seq<StoredEventV>, g: Guid) -> bool {
    exists|i: int| 0 <= i < s.len() && s[i].guid == g
}

/// The position of the row holding the identifier.
pub open spec fn guid_index(s: Seq<StoredEventV>, g: Guid) -> int {
    choose|i: int| 0 <= i < s.len() && s[i].guid == g
}

/// The row as the upsert leaves it on conflict: exactly the mutable
/// fields (kind, name, slug, league, happening-at) and the update time
/// change; id, owning organizer, identifier and creation time stay.
pub open spec fn updated_event(row: StoredEventV, e: EventDataV, now: Stamp) -> StoredEventV {
    StoredEventV {
        id: row.id,
        organizer_id: row.organizer_id,
        kind: e.kind,
        name: e.name,
        pokemon_event_slug: e.pokemon_event_slug,
        guid: row.guid,
        league: e.league,
        happening_at: e.happening_at,
        created_at: row.created_at,
        updated_at: now,
    }
}

/// The row the upsert creates on first sight of an identifier.
pub open spec fn inserted_event(e: EventDataV, id: i32, now: Stamp) -> StoredEventV {
    StoredEventV {
        id: id,
        organizer_id: e.organizer_id,
        kind: e.kind,
        name: e.name,
        pokemon_event_slug: e.pokemon_event_slug,
        guid: e.guid,
        league: e.league,
        happening_at: e.happening_at,
        created_at: now,
        updated_at: now,
    }
}

/// The mathematical form of the whole store.
#[verifier::ext_equal]
pub struct StoreV {
    pub organizers: Seq<StoredOrganizerV>,
    pub events: Seq<StoredEventV>,
    pub next_organizer_id: int,
    pub next_event_id: int,
}

/// One event applied to the store: an in-place update of the row that
/// holds the identifier, or a fresh row under the next id.
pub open spec fn upsert_one(st: StoreV, e: EventDataV, now: Stamp) -> StoreV {
    if has_guid(st.events, e.guid) {
        StoreV {
            events: st.events.update(
                guid_index(st.events, e.guid),
                updated_event(st.events[guid_index(st.events, e.guid)], e, now),
            ),
            ..st
        }
    } else {
        StoreV {
            events: st.events.push(inserted_event(e, st.next_event_id as i32, now)),
            next_event_id: st.next_event_id + 1,
            ..st
        }
    }
}

/// A batch applied to the store, in feed order.
pub open spec fn upsert_batch(st: StoreV, batch: Seq<EventDataV>, now: Stamp) -> StoreV
    decreases batch.len(),
{
    if batch.len() == 0 {
        st
    } else {
        upsert_batch(upsert_one(st, batch[0], now), batch.drop_first(), now)
    }
}

/// Applying one more event after a batch is applying the extended batch.
pub proof fn lemma_upsert_batch_push(st: StoreV, batch: Seq<EventDataV>, e: EventDataV, now: Stamp)
    ensures
        upsert_batch(st, batch.push(e), now) == upsert_one(upsert_batch(st, batch, now), e, now),
    decreases batch.len(),
{
    let b1 = batch.push(e);
    assert(upsert_batch(st, b1, now) == upsert_batch(upsert_one(st, b1[0], now), b1.drop_first(), now));
    if batch.len() == 0 {
        assert(b1[0] == e);
        assert(b1.drop_first() =~= Seq::<EventDataV>::empty());
        assert(upsert_batch(upsert_one(st, e, now), b1.drop_first(), now) == upsert_one(st, e, now));
        assert(upsert_batch(st, batch, now) == st);
    } else {
        assert(b1[0] == batch[0]);
        assert(b1.drop_first() =~= batch.drop_first().push(e));
        lemma_upsert_batch_push(upsert_one(st, batch[0], now), batch.drop_first(), e, now);
        assert(upsert_batch(st, batch, now) == upsert_batch(
            upsert_one(st, batch[0], now),
            batch.drop_first(),
            now,
        ));
    }
}

/// No two event rows hold the same identifier, and every row id is
/// below the next free id.
pub open spec fn events_wf(events: Seq<StoredEventV>, next_id: int) -> bool {
    &&& forall|i: int, j: int| 0 <= i < j < events.len() ==> events[i].guid != events[j].guid
    &&& forall|i: int| 0 <= i < events.len() ==> (#[trigger] events[i]).id < next_id
}

/// Every organizer row id is below the next free id.
pub open spec fn organizers_wf(organizers: Seq<StoredOrganizerV>, next_id: int) -> bool {
    forall|i: int| 0 <= i < organizers.len() ==> (#[trigger] organizers[i]).id < next_id
}

/// Well-formedness of the whole store.
pub open spec fn store_wf(st: StoreV) -> bool {
    &&& events_wf(st.events, st.next_event_id)
    &&& organizers_wf(st.organizers, st.next_organizer_id)
    &&& 1 <= st.next_event_id
    &&& 1 <= st.next_organizer_id
}

/// Applying one event preserves well-formedness, on ids that fit.
pub proof fn lemma_upsert_one_wf(st: StoreV, e: EventDataV, now: Stamp)
    requires
        store_wf(st),
        st.next_event_id < i32::MAX,
    ensures
        store_wf(upsert_one(st, e, now)),
{
    let st2 = upsert_one(st, e, now);
    if has_guid(st.events, e.guid) {
        let k = guid_index(st.events, e.guid);
        assert(st2.events[k].guid == st.events[k].guid);
        assert forall|i: int, j: int| 0 <= i < j < st2.events.len() implies st2.events[i].guid
            != st2.events[j].guid by {
            assert(st.events[i].guid != st.events[j].guid);
        }
    }
}

/// The organizer values a persisted organizer row carries, read back
/// for seeding the run cache. Stored fields are already normalized, so
/// no fallback applies.
pub fn organizer_values_from_model(model: &StoredOrganizer) -> (v: OrganizerValues)
    ensures
        v@.name == model@.name,
        v@.address == model@.address,
        v@.city == model@.city,
        v@.area == model@.area,
        v@.country == model@.country,
        v@.latitude == model@.latitude,
        v@.longitude == model@.longitude,
{
    OrganizerValues {
        name: vstd::slice::slice_to_vec(model.name.as_slice()),
        address: vstd::slice::slice_to_vec(model.address.as_slice()),
        city: vstd::slice::slice_to_vec(model.city.as_slice()),
        area: vstd::slice::slice_to_vec(model.area.as_slice()),
        country: vstd::slice::slice_to_vec(model.country.as_slice()),
        latitude: vstd::slice::slice_to_vec(model.latitude.as_slice()),
        longitude: vstd::slice::slice_to_vec(model.longitude.as_slice()),
    }
}

/// Whether some event of the batch carries the identifier.
pub open spec fn batch_has_guid(b: Seq<EventDataV>, g: Guid) -> bool {
    exists|i: int| 0 <= i < b.len() && b[i].guid == g
}

/// Applying one event stores exactly that event's identifier beyond
/// what was stored, and touches nothing else about which rows exist:
/// row count grows only on first sight, and every row keeps its id,
/// identifier, owning organizer and creation time.
pub proof fn lemma_upsert_one_keeps(st: StoreV, e: EventDataV, now: Stamp)
    ensures
        forall|g: Guid| #![trigger has_guid(upsert_one(st, e, now).events, g)]
            has_guid(upsert_one(st, e, now).events, g) <==> (has_guid(st.events, g) || g
                == e.guid),
        upsert_one(st, e, now).events.len() >= st.events.len(),
        has_guid(st.events, e.guid) ==> upsert_one(st, e, now).events.len() == st.events.len(),
        !has_guid(st.events, e.guid) ==> upsert_one(st, e, now).events.len() == st.events.len()
            + 1,
        forall|i: int|
            0 <= i < st.events.len() ==> {
                let row = #[trigger] upsert_one(st, e, now).events[i];
                &&& row.id == st.events[i].id
                &&& row.guid == st.events[i].guid
                &&& row.organizer_id == st.events[i].organizer_id
                &&& row.created_at == st.events[i].created_at
            },
        upsert_one(st, e, now).organizers == st.organizers,
        upsert_one(st, e, now).next_organizer_id == st.next_organizer_id,
        upsert_one(st, e, now).next_event_id <= st.next_event_id + 1,
        upsert_one(st, e, now).next_event_id >= st.next_event_id,
{
    let st2 = upsert_one(st, e, now);
    if has_guid(st.events, e.guid) {
        let k = guid_index(st.events, e.guid);
        assert(0 <= k < st.events.len() && st.events[k].guid == e.guid);
        assert forall|g: Guid| has_guid(st2.events, g) implies (has_guid(st.events, g) || g
            == e.guid) by {
            let i = choose|i: int| 0 <= i < st2.events.len() && st2.events[i].guid == g;
            assert(st.events[i].guid == g);
        }
        assert forall|g: Guid| has_guid(st.events, g) implies has_guid(st2.events, g) by {
            let i = choose|i: int| 0 <= i < st.events.len() && st.events[i].guid == g;
            assert(st2.events[i].guid == g);
        }
    } else {
        assert(st2.events[st.events.len() as int].guid == e.guid);
        assert forall|g: Guid| has_guid(st2.events, g) implies (has_guid(st.events, g) || g
            == e.guid) by {
            let i = choose|i: int| 0 <= i < st2.events.len() && st2.events[i].guid == g;
            if i < st.events.len() {
                assert(st.events[i].guid == g);
            }
        }
        assert forall|g: Guid| has_guid(st.events, g) implies has_guid(st2.events, g) by {
            let i = choose|i: int| 0 <= i < st.events.len() && st.events[i].guid == g;
            assert(st2.events[i].guid == g);
        }
    }
}

/// Applying a batch stores exactly the batch's identifiers beyond what
/// was stored, keeps every existing row's identity fields, and leaves
/// the organizers untouched.
pub proof fn lemma_upsert_batch_keeps(st: StoreV, b: Seq<EventDataV>, now: Stamp)
    ensures
        forall|g: Guid| #![trigger has_guid(upsert_batch(st, b, now).events, g)]
            has_guid(upsert_batch(st, b, now).events, g) <==> (has_guid(st.events, g)
                || batch_has_guid(b, g)),
        upsert_batch(st, b, now).events.len() >= st.events.len(),
        forall|i: int|
            0 <= i < st.events.len() ==> {
                let row = #[trigger] upsert_batch(st, b, now).events[i];
                &&& row.id == st.events[i].id
                &&& row.guid == st.events[i].guid
                &&& row.organizer_id == st.events[i].organizer_id
                &&& row.created_at == st.events[i].created_at
            },
        upsert_batch(st, b, now).organizers == st.organizers,
        upsert_batch(st, b, now).next_organizer_id == st.next_organizer_id,
        upsert_batch(st, b, now).next_event_id <= st.next_event_id + b.len(),
        upsert_batch(st, b, now).next_event_id >= st.next_event_id,
    decreases b.len(),
{
    if b.len() == 0 {
        assert(forall|g: Guid| !batch_has_guid(b, g));
    } else {
        let st1 = upsert_one(st, b[0], now);
        lemma_upsert_one_keeps(st, b[0], now);
        lemma_upsert_batch_keeps(st1, b.drop_first(), now);
        assert(upsert_batch(st, b, now) == upsert_batch(st1, b.drop_first(), now));
        assert forall|g: Guid|
            has_guid(upsert_batch(st, b, now).events, g) <==> (has_guid(st.events, g)
                || batch_has_guid(b, g)) by {
            lemma_upsert_batch_keeps(st1, b.drop_first(), now);
            lemma_upsert_one_keeps(st, b[0], now);
            assert(has_guid(upsert_batch(st1, b.drop_first(), now).events, g) <==> (has_guid(
                st1.events,
                g,
            ) || batch_has_guid(b.drop_first(), g)));
            assert(has_guid(st1.events, g) <==> (has_guid(st.events, g) || g == b[0].guid));
            if batch_has_guid(b, g) {
                let i = choose|i: int| 0 <= i < b.len() && b[i].guid == g;
                if i > 0 {
                    assert(b.drop_first()[i - 1].guid == g);
                }
            }
            if batch_has_guid(b.drop_first(), g) {
                let i = choose|i: int| 0 <= i < b.drop_first().len() && b.drop_first()[i].guid
                    == g;
                assert(b[i + 1].guid == g);
            }
            assert(b[0].guid == g ==> batch_has_guid(b, g));
        }
    }
}

/// A batch whose identifiers are all already stored adds no rows and
/// stores no new identifier.
pub proof fn lemma_upsert_batch_no_growth(st: StoreV, b: Seq<EventDataV>, now: Stamp)
    requires
        forall|i: int| 0 <= i < b.len() ==> has_guid(st.events, (#[trigger] b[i]).guid),
    ensures
        upsert_batch(st, b, now).events.len() == st.events.len(),
        forall|g: Guid| #![trigger has_guid(upsert_batch(st, b, now).events, g)]
            has_guid(upsert_batch(st, b, now).events, g) <==> has_guid(st.events, g),
        upsert_batch(st, b, now).organizers == st.organizers,
    decreases b.len(),
{
    if b.len() > 0 {
        let st1 = upsert_one(st, b[0], now);
        lemma_upsert_one_keeps(st, b[0], now);
        assert forall|i: int| 0 <= i < b.drop_first().len() implies has_guid(
            st1.events,
            (#[trigger] b.drop_first()[i]).guid,
        ) by {
            assert(b.drop_first()[i] == b[i + 1]);
            assert(has_guid(st.events, b[i + 1].guid));
        }
        lemma_upsert_batch_no_growth(st1, b.drop_first(), now);
    }
}

/// Idempotence of ingestion at the store: re-applying a batch leaves
/// the set of stored identifiers, the event row count, and the
/// organizer rows exactly as the first application left them.
pub proof fn lemma_upsert_batch_idempotent(
    st: StoreV,
    b: Seq<EventDataV>,
    now1: Stamp,
    now2: Stamp,
)
    ensures
        upsert_batch(upsert_batch(st, b, now1), b, now2).events.len() == upsert_batch(
            st,
            b,
            now1,
        ).events.len(),
        forall|g: Guid|
            has_guid(upsert_batch(upsert_batch(st, b, now1), b, now2).events, g) <==> has_guid(
                upsert_batch(st, b, now1).events,
                g,
            ),
        upsert_batch(upsert_batch(st, b, now1), b, now2).organizers == upsert_batch(
            st,
            b,
            now1,
        ).organizers,
{
    let st1 = upsert_batch(st, b, now1);
    lemma_upsert_batch_keeps(st, b, now1);
    assert forall|i: int| 0 <= i < b.len() implies has_guid(st1.events, (#[trigger] b[i]).guid) by {
        assert(batch_has_guid(b, b[i].guid));
    }
    lemma_upsert_batch_no_growth(st1, b, now2);
}

/// Uniqueness under re-ingestion: two sightings of one identifier leave
/// exactly one row holding it; that row carries the second sighting's
/// mutable fields, was created at the first sighting's time, and was
/// updated at the second's.
pub proof fn lemma_same_guid_second_wins(
    st: StoreV,
    e1: EventDataV,
    e2: EventDataV,
    now1: Stamp,
    now2: Stamp,
)
    requires
        e1.guid == e2.guid,
        !has_guid(st.events, e1.guid),
    ensures
        ({
            let st2 = upsert_one(upsert_one(st, e1, now1), e2, now2);
            let k = st.events.len() as int;
            &&& st2.events.len() == st.events.len() + 1
            &&& st2.events[k].guid == e1.guid
            &&& forall|i: int| 0 <= i < st2.events.len() && i != k ==> st2.events[i].guid != e1.guid
            &&& st2.events[k].name == e2.name
            &&& st2.events[k].kind == e2.kind
            &&& st2.events[k].pokemon_event_slug == e2.pokemon_event_slug
            &&& st2.events[k].league == e2.league
            &&& st2.events[k].happening_at == e2.happening_at
            &&& st2.events[k].organizer_id == e1.organizer_id
            &&& st2.events[k].created_at == now1
            &&& st2.events[k].updated_at == now2
        }),
{
    let st1 = upsert_one(st, e1, now1);
    let k = st.events.len() as int;
    assert(st1.events == st.events.push(inserted_event(e1, st.next_event_id as i32, now1)));
    assert(st1.events[k].guid == e1.guid);
    assert(has_guid(st1.events, e2.guid));
    let j = guid_index(st1.events, e2.guid);
    assert(0 <= j < st1.events.len() && st1.events[j].guid == e2.guid);
    assert forall|i: int| 0 <= i < st1.events.len() && i != k implies st1.events[i].guid
        != e1.guid by {
        assert(st1.events[i] == st.events[i]);
    }
    assert(j == k);
    let st2 = upsert_one(st1, e2, now2);
    assert(st2.events == st1.events.update(k, updated_event(st1.events[k], e2, now2)));
}

/// The in-memory store: an ACID relational store's minimum shape,
/// realized as plain rows for whole-pipeline runs and tests.
pub struct MemStore {
    pub organizers: Vec<StoredOrganizer>,
    pub events: Vec<StoredEvent>,
    pub next_organizer_id: i32,
    pub next_event_id: i32,
}

impl View for MemStore {
    type V = StoreV;

    open spec fn view(&self) -> StoreV {
        StoreV {
            organizers: self.organizers@.map_values(|o: StoredOrganizer| o@),
            events: self.events@.map_values(|e: StoredEvent| e@),
            next_organizer_id: self.next_organizer_id as int,
            next_event_id: self.next_event_id as int,
        }
    }
}

impl MemStore {
    /// An empty store.
    pub fn new() -> (st: MemStore)
        ensures
            store_wf(st@),
            st@.organizers.len() == 0,
            st@.events.len() == 0,
            st@.next_organizer_id == 1,
            st@.next_event_id == 1,
    {
        let st = MemStore {
            organizers: Vec::new(),
            events: Vec::new(),
            next_organizer_id: 1,
            next_event_id: 1,
        };
        proof {
            assert(st@.organizers =~= Seq::<StoredOrganizerV>::empty());
            assert(st@.events =~= Seq::<StoredEventV>::empty());
        }
        st
    }

    /// Persists a new organizer row from its values, stamped with the
    /// run time, and returns its system-assigned id.
    pub fn insert_organizer(&mut self, values: &OrganizerValues, now: Stamp) -> (id: i32)
        requires
            store_wf(old(self)@),
            old(self)@.next_organizer_id < i32::MAX,
        ensures
            store_wf(final(self)@),
            id == old(self)@.next_organizer_id,
            final(self)@.organizers == old(self)@.organizers.push(
                StoredOrganizerV {
                    id: id,
                    name: values@.name,
                    address: values@.address,
                    city: values@.city,
                    area: values@.area,
                    country: values@.country,
                    latitude: values@.latitude,
                    longitude: values@.longitude,
                    created_at: now,
                    updated_at: now,
                },
            ),
            final(self)@.events == old(self)@.events,
            final(self)@.next_event_id == old(self)@.next_event_id,
            final(self)@.next_organizer_id == old(self)@.next_organizer_id + 1,
    {
        let id = self.next_organizer_id;
        let row = StoredOrganizer {
            id,
            name: vstd::slice::slice_to_vec(values.name.as_slice()),
            address: vstd::slice::slice_to_vec(values.address.as_slice()),
            city: vstd::slice::slice_to_vec(values.city.as_slice()),
            area: vstd::slice::slice_to_vec(values.area.as_slice()),
            country: vstd::slice::slice_to_vec(values.country.as_slice()),
            latitude: vstd::slice::slice_to_vec(values.latitude.as_slice()),
            longitude: vstd::slice::slice_to_vec(values.longitude.as_slice()),
            created_at: now,
            updated_at: now,
        };
        let ghost before = self.organizers@;
        self.organizers.push(row);
        self.next_organizer_id = self.next_organizer_id + 1;
        proof {
            assert(self.organizers@.map_values(|o: StoredOrganizer| o@) =~= before.map_values(
                |o: StoredOrganizer| o@,
            ).push(self.organizers@.last()@));
        }
        id
    }

    /// Applies one event: updates the row holding its identifier in
    /// place, or appends a fresh row under the next id.
    fn upsert_one_event(&mut self, e: &EventData, now: Stamp)
        requires
            store_wf(old(self)@),
            old(self)@.next_event_id < i32::MAX,
        ensures
            store_wf(final(self)@),
            final(self)@ == upsert_one(old(self)@, e@, now),
            final(self)@.next_event_id <= old(self)@.next_event_id + 1,
    {
        proof {
            lemma_upsert_one_wf(old(self)@, e@, now);
        }
        let n = self.events.len();
        let mut i: usize = 0;
        while i < n
            invariant
                i <= n,
                n == self.events@.len(),
                self@ == old(self)@,
                store_wf(old(self)@),
                old(self)@.next_event_id < i32::MAX,
                forall|k: int| 0 <= k < i ==> self@.events[k].guid != e.guid,
            decreases n - i,
        {
            if self.events[i].guid == e.guid {
                let row = StoredEvent {
                    id: self.events[i].id,
                    organizer_id: self.events[i].organizer_id,
                    kind: e.kind.clone_kind(),
                    name: vstd::slice::slice_to_vec(e.name.as_slice()),
                    pokemon_event_slug: vstd::slice::slice_to_vec(e.pokemon_event_slug.as_slice()),
                    guid: self.events[i].guid,
                    league: e.league,
                    happening_at: e.happening_at,
                    created_at: self.events[i].created_at,
                    updated_at: now,
                };
                let ghost before = self@.events;
                self.events.set(i, row);
                proof {
                    assert(before[i as int].guid == e@.guid);
                    assert(has_guid(before, e@.guid));
                    let k = guid_index(before, e@.guid);
                    assert(before[k].guid == e@.guid);
                    assert(k == i as int);
                    assert(self.events@.map_values(|ev: StoredEvent| ev@) =~= before.update(
                        k,
                        updated_event(before[k], e@, now),
                    ));
                    assert(self@ =~= upsert_one(old(self)@, e@, now));
                }
                return ;
            }
            i = i + 1;
        }
        let id = self.next_event_id;
        let row = StoredEvent {
            id,
            organizer_id: e.organizer_id,
            kind: e.kind.clone_kind(),
            name: vstd::slice::slice_to_vec(e.name.as_slice()),
            pokemon_event_slug: vstd::slice::slice_to_vec(e.pokemon_event_slug.as_slice()),
            guid: e.guid,
            league: e.league,
            happening_at: e.happening_at,
            created_at: now,
            updated_at: now,
        };
        let ghost before = self@.events;
        self.events.push(row);
        self.next_event_id = self.next_event_id + 1;
        proof {
            assert(!has_guid(before, e@.guid));
            assert(self.events@.map_values(|ev: StoredEvent| ev@) =~= before.push(
                inserted_event(e@, id, now),
            ));
            assert(self@ =~= upsert_one(old(self)@, e@, now));
        }
    }

    /// Applies a non-empty batch as one unit of work, in order: a single
    /// set-based upsert keyed on the identifier. Re-applying rows whose
    /// identifiers are already stored is a success, not an error.
    pub fn upsert_events(&mut self, batch: &Vec<EventData>, now: Stamp)
        requires
            store_wf(old(self)@),
            old(self)@.next_event_id + batch@.len() <= i32::MAX,
        ensures
            store_wf(final(self)@),
            final(self)@ == upsert_batch(
                old(self)@,
                batch@.map_values(|e: EventData| e@),
                now,
            ),
    {
        let n = batch.len();
        let ghost bv = batch@.map_values(|e: EventData| e@);
        let mut i: usize = 0;
        proof {
            assert(bv.subrange(0, 0) =~= Seq::<EventDataV>::empty());
        }
        while i < n
            invariant
                i <= n,
                n == batch@.len(),
                bv == batch@.map_values(|e: EventData| e@),
                store_wf(self@),
                self@.next_event_id + (n - i) <= i32::MAX,
                self@ == upsert_batch(old(self)@, bv.subrange(0, i as int), now),
            decreases n - i,
        {
            let ghost pre = bv.subrange(0, i as int);
            proof {
                lemma_upsert_batch_push(old(self)@, pre, bv[i as int], now);
                assert(pre.push(bv[i as int]) =~= bv.subrange(0, i as int + 1));
            }
            self.upsert_one_event(&batch[i], now);
            i = i + 1;
        }
        proof {
            assert(bv.subrange(0, n as int) =~= bv);
        }
    }
}

} // verus!
