//! The compute side of the paginated event search: the page and size
//! clamps, the offset, the decision whether a separate count query is
//! owed, and the pairing of fetched events with their organizers. The
//! query itself runs at the storage edge.

use vstd::prelude::*;
use crate::kind::EventKind;
use crate::store::StoredEvent;
use crate::store::StoredEventV;
use crate::store::StoredOrganizer;
use crate::store::StoredOrganizerV;

verus! {

/// Whether the search wants upcoming or past events.
pub enum EventState {
    Upcoming,
    Past,
}

/// The optional search filters; an absent filter constrains nothing.
pub struct EventsSearchFilters {
    pub country: Option<Vec<u8>>,
    pub city: Option<Vec<u8>>,
    pub area: Option<Vec<u8>>,
    pub organizer_id: Option<i32>,
    pub kind: Option<EventKind>,
    pub state: Option<EventState>,
}

/// One page worth of search, one-based.
pub struct EventsSearchRequest {
    pub filters: EventsSearchFilters,
    pub page: u64,
    pub page_size: u64,
}

/// An event with its organizer joined in.
pub struct EventFull {
    pub event: StoredEvent,
    pub organizer: StoredOrganizer,
}

/// The page of results with the total match count.
pub struct EventsSearchResponse {
    pub events: Vec<EventFull>,
    pub total: u64,
    pub page: u64,
    pub page_size: u64,
}

/// The page cap on the page size.
pub const MAX_PAGE_SIZE: u64 = 100;

/// Multiplication on page offsets, saturating at the numeric limit.
pub open spec fn sat_mul_u64(a: u64, b: u64) -> u64 {
    if a * b > u64::MAX {
        u64::MAX
    } else {
        (a * b) as u64
    }
}

/// Clamps a request's paging: the page floored at one, the page size
/// capped, and the row offset of the page's first result.
pub fn search_page_params(page: u64, page_size: u64) -> (r: (u64, u64, u64))
    ensures
        r.0 == if page < 1 {
            1u64
        } else {
            page
        },
        r.1 == if page_size > MAX_PAGE_SIZE {
            MAX_PAGE_SIZE
        } else {
            page_size
        },
        r.2 == sat_mul_u64((r.0 - 1) as u64, r.1),
{
    let p: u64 = if page < 1 {
        1
    } else {
        page
    };
    let s: u64 = if page_size > MAX_PAGE_SIZE {
        MAX_PAGE_SIZE
    } else {
        page_size
    };
    let offset = match (p - 1).checked_mul(s) {
        Some(v) => v,
        None => u64::MAX,
    };
    (p, s, offset)
}

/// Whether the fetched page already tells the total: on the first page,
/// a short page is the whole result set, and no count query is owed.
pub fn total_is_known(page: u64, page_size: u64, fetched: u64) -> (r: bool)
    ensures
        r == (page <= 1 && fetched < page_size),
{
    page <= 1 && fetched < page_size
}

/// The first organizer row carrying the id, if any.
pub open spec fn org_with_id(orgs: Seq<StoredOrganizerV>, id: i32) -> Option<StoredOrganizerV>
    decreases orgs.len(),
{
    if orgs.len() == 0 {
        None
    } else if orgs[0].id == id {
        Some(orgs[0])
    } else {
        org_with_id(orgs.drop_first(), id)
    }
}

/// The fetched events paired each with its organizer, in fetch order;
/// an event whose organizer is not among `orgs` is dropped.
pub open spec fn paired(evs: Seq<StoredEventV>, orgs: Seq<StoredOrganizerV>) -> Seq<
    (StoredEventV, StoredOrganizerV),
>
    decreases evs.len(),
{
    if evs.len() == 0 {
        Seq::empty()
    } else {
        paired(evs.drop_last(), orgs) + match org_with_id(orgs, evs.last().organizer_id) {
            Some(o) => seq![(evs.last(), o)],
            None => Seq::empty(),
        }
    }
}

/// The first organizer row carrying the id, if any.
fn find_organizer(orgs: &Vec<StoredOrganizer>, id: i32) -> (r: Option<&StoredOrganizer>)
    ensures
        match r {
            Some(o) => org_with_id(orgs@.map_values(|x: StoredOrganizer| x@), id) == Some(o@),
            None => org_with_id(orgs@.map_values(|x: StoredOrganizer| x@), id) is None,
        },
{
    let ghost ov = orgs@.map_values(|x: StoredOrganizer| x@);
    let n = orgs.len();
    let mut i: usize = 0;
    proof {
        assert(ov.subrange(0, n as int) =~= ov);
    }
    while i < n
        invariant
            i <= n,
            n == orgs@.len(),
            ov == orgs@.map_values(|x: StoredOrganizer| x@),
            org_with_id(ov, id) == org_with_id(ov.subrange(i as int, n as int), id),
        decreases n - i,
    {
        proof {
            let rest = ov.subrange(i as int, n as int);
            assert(rest[0] == ov[i as int]);
            assert(rest.drop_first() =~= ov.subrange(i as int + 1, n as int));
        }
        if orgs[i].id == id {
            return Some(&orgs[i]);
        }
        i = i + 1;
    }
    proof {
        assert(ov.subrange(n as int, n as int) =~= Seq::<StoredOrganizerV>::empty());
    }
    None
}

/// Pairs each fetched event with its organizer, keeping fetch order and
/// dropping events whose organizer was not fetched.
pub fn pair_with_organizers(events: &Vec<StoredEvent>, orgs: &Vec<StoredOrganizer>) -> (r: Vec<
    EventFull,
>)
    ensures
        r@.map_values(|f: EventFull| (f.event@, f.organizer@)) == paired(
            events@.map_values(|x: StoredEvent| x@),
            orgs@.map_values(|x: StoredOrganizer| x@),
        ),
{
    let ghost ev = events@.map_values(|x: StoredEvent| x@);
    let ghost ov = orgs@.map_values(|x: StoredOrganizer| x@);
    let mut r: Vec<EventFull> = Vec::new();
    let n = events.len();
    let mut i: usize = 0;
    proof {
        assert(r@.map_values(|f: EventFull| (f.event@, f.organizer@)) =~= paired(
            ev.subrange(0, 0),
            ov,
        ));
    }
    while i < n
        invariant
            i <= n,
            n == events@.len(),
            ev == events@.map_values(|x: StoredEvent| x@),
            ov == orgs@.map_values(|x: StoredOrganizer| x@),
            r@.map_values(|f: EventFull| (f.event@, f.organizer@)) == paired(
                ev.subrange(0, i as int),
                ov,
            ),
        decreases n - i,
    {
        let ghost pre = ev.subrange(0, i as int);
        let ghost ext = ev.subrange(0, i as int + 1);
        proof {
            assert(ext.drop_last() =~= pre);
            assert(ext.last() == ev[i as int]);
        }
        match find_organizer(orgs, events[i].organizer_id) {
            Some(o) => {
                let f = EventFull { event: events[i].clone_row(), organizer: o.clone_row() };
                r.push(f);
                proof {
                    assert(r@.map_values(|f: EventFull| (f.event@, f.organizer@)) =~= paired(
                        ext,
                        ov,
                    ));
                }
            },
            None => {
                proof {
                    assert(r@.map_values(|f: EventFull| (f.event@, f.organizer@)) =~= paired(
                        ext,
                        ov,
                    ));
                }
            },
        }
        i = i + 1;
    }
    proof {
        assert(ev.subrange(0, n as int) =~= ev);
    }
    r
}

} // verus!
