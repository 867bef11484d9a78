//! The validated domain event built from a raw row, and the builder's
//! validation policy: an unrecognized kind is preserved, a malformed
//! timestamp or identifier fails the row, a malformed league is absent.

use vstd::prelude::*;
use crate::datetime::Stamp;
use crate::datetime::parse_stamp;
use crate::datetime::stamp_of_text;
use crate::datetime::stamp_text_valid;
use crate::guid::Guid;
use crate::guid::guid_of_text;
use crate::guid::guid_text_wf;
use crate::guid::parse_guid;
use crate::kind::EventKind;
use crate::kind::KindView;
use crate::kind::kind_of_text;
use crate::numbers::opt_i32_spec;
use crate::numbers::parse_optional_i32;
use crate::record::RawEventRecord;
use crate::record::RecordV;
use crate::text::trim;
use crate::text::trim_spec;

verus! {

/// A validated event, ready for persistence. Event name and slug are
/// stored trimmed; unlike organizer fields, blank is allowed.
pub struct EventData {
    pub organizer_id: i32,
    pub kind: EventKind,
    pub name: Vec<u8>,
    pub pokemon_event_slug: Vec<u8>,
    pub guid: Guid,
    pub league: Option<i32>,
    pub happening_at: Stamp,
}

/// The mathematical form of a validated event.
#[verifier::ext_equal]
pub struct EventDataV {
    pub organizer_id: i32,
    pub kind: KindView,
    pub name: Seq<u8>,
    pub pokemon_event_slug: Seq<u8>,
    pub guid: Guid,
    pub league: Option<i32>,
    pub happening_at: Stamp,
}

impl View for EventData {
    type V = EventDataV;

    open spec fn view(&self) -> EventDataV {
        EventDataV {
            organizer_id: self.organizer_id,
            kind: self.kind@,
            name: self.name@,
            pokemon_event_slug: self.pokemon_event_slug@,
            guid: self.guid,
            league: self.league,
            happening_at: self.happening_at,
        }
    }
}

/// Why a row failed validation and was skipped.
#[derive(Clone, Copy, Debug, PartialEq, Eq, Structural)]
pub enum BuildError {
    /// The `when` field does not match the timestamp pattern or does not
    /// name a real date and time.
    InvalidTimestamp,
    /// The `guid` field is no canonical hyphenated-hex identifier.
    InvalidGuid,
}

/// Whether a row's identifier field is a well-formed identifier text.
pub open spec fn row_guid_ok(r: RecordV) -> bool {
    guid_text_wf(trim_spec(r.guid))
}

/// Whether a row's timestamp field is a well-formed timestamp text.
pub open spec fn row_stamp_ok(r: RecordV) -> bool {
    stamp_text_valid(trim_spec(r.happening_at))
}

/// The event a valid row denotes, given the resolved organizer, the
/// parsed identifier and the parsed timestamp.
pub open spec fn event_of_row(r: RecordV, organizer_id: i32, guid: Guid, at: Stamp) -> EventDataV {
    EventDataV {
        organizer_id: organizer_id,
        kind: kind_of_text(trim_spec(r.kind)),
        name: trim_spec(r.name),
        pokemon_event_slug: trim_spec(r.pokemon_event_slug),
        guid: guid,
        league: opt_i32_spec(r.league),
        happening_at: at,
    }
}

/// The event a valid row denotes, given the resolved organizer.
pub open spec fn built_event(r: RecordV, organizer_id: i32) -> EventDataV {
    event_of_row(
        r,
        organizer_id,
        guid_of_text(trim_spec(r.guid)),
        stamp_of_text(trim_spec(r.happening_at)),
    )
}

/// Builds the event fields that need no validation: kind (with its open
/// fallback), trimmed name and slug, and the optional league number.
pub fn build_event_model(
    record: &RawEventRecord,
    organizer_id: i32,
    guid: Guid,
    happening_at: Stamp,
) -> (e: EventData)
    ensures
        e@ == event_of_row(record@, organizer_id, guid, happening_at),
{
    let e = EventData {
        organizer_id,
        kind: EventKind::parse(record.kind.as_slice()),
        name: trim(record.name.as_slice()),
        pokemon_event_slug: trim(record.pokemon_event_slug.as_slice()),
        guid,
        league: parse_optional_i32(record.league.as_slice()),
        happening_at,
    };
    proof {
        assert(e@ =~= event_of_row(record@, organizer_id, guid, happening_at));
    }
    e
}

/// Validates a row and builds its event: the timestamp is checked first,
/// then the identifier; each failure names its reason, and a row fails
/// for no other reason.
pub fn build(record: &RawEventRecord, organizer_id: i32) -> (r: Result<EventData, BuildError>)
    ensures
        r matches Ok(e) ==> row_stamp_ok(record@) && row_guid_ok(record@) && e@ == built_event(
            record@,
            organizer_id,
        ),
        r == Err::<EventData, BuildError>(BuildError::InvalidTimestamp) <==> !row_stamp_ok(
            record@,
        ),
        r == Err::<EventData, BuildError>(BuildError::InvalidGuid) <==> row_stamp_ok(record@)
            && !row_guid_ok(record@),
{
    let when = trim(record.happening_at.as_slice());
    let happening_at = match parse_stamp(when.as_slice()) {
        Some(t) => t,
        None => {
            return Err(BuildError::InvalidTimestamp);
        },
    };
    let guid_text = trim(record.guid.as_slice());
    let guid = match parse_guid(guid_text.as_slice()) {
        Some(g) => g,
        None => {
            return Err(BuildError::InvalidGuid);
        },
    };
    Ok(build_event_model(record, organizer_id, guid, happening_at))
}

} // verus!
