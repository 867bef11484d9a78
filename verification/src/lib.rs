//! Verified ingestion and reconciliation pipeline for a semicolon-delimited
//! event feed: streaming row parsing with per-row fault tolerance, in-run
//! deduplication of organizers, and idempotent, chunked bulk upserts of
//! events keyed by a globally unique identifier.

use vstd::prelude::*;

mod datetime;
mod event;
mod feed;
mod guid;
mod ingest;
mod kind;
mod numbers;
mod pipeline;
mod record;
mod resolver;
mod search;
mod store;
mod text;

pub use datetime::Stamp;
pub use datetime::parse_stamp;
pub use event::BuildError;
pub use event::EventData;
pub use event::build;
pub use event::build_event_model;
pub use feed::parse_row;
pub use guid::Guid;
pub use guid::parse_guid;
pub use ingest::load_existing_organizers;
pub use ingest::run_ingestion;
pub use kind::EventKind;
pub use kind::KindView;
pub use numbers::parse_optional_i32;
pub use pipeline::AdmitOutcome;
pub use pipeline::CHUNK_SIZE;
pub use pipeline::Pipeline;
pub use pipeline::RowPlan;
pub use record::OrganizerKey;
pub use record::OrganizerValues;
pub use record::RawEventRecord;
pub use record::build_organizer_key;
pub use record::organizer_values_from_record;
pub use resolver::OrganizerCache;
pub use search::EventFull;
pub use search::EventState;
pub use search::EventsSearchFilters;
pub use search::EventsSearchRequest;
pub use search::EventsSearchResponse;
pub use search::MAX_PAGE_SIZE;
pub use search::pair_with_organizers;
pub use search::search_page_params;
pub use search::total_is_known;
pub use store::MemStore;
pub use store::StoredEvent;
pub use store::StoredOrganizer;
pub use store::organizer_values_from_model;
pub use text::normalize;
pub use text::normalize_key;

verus! {

/// Marker for the service's API description; the serving layer derives
/// the OpenAPI document for its own copy of this type.
pub struct ApiDoc;

} // verus!
