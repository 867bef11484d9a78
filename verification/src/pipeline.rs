//! The orchestrator's per-row state machine: organizer resolution first
//! (through the run cache), then validation, then buffering into bounded
//! chunks that are handed out for one set-based upsert each. The caller
//! drives it row by row and performs the handed-out persistence work.

use vstd::prelude::*;
use crate::event::BuildError;
use crate::event::EventData;
use crate::event::EventDataV;
use crate::event::build;
use crate::event::built_event;
use crate::event::row_guid_ok;
use crate::event::row_stamp_ok;
use crate::record::OrganizerValues;
use crate::record::RawEventRecord;
use crate::record::build_organizer_key;
use crate::record::key_of_record;
use crate::record::organizer_values_from_record;
use crate::record::values_of_record;
use crate::resolver::OrganizerCache;

verus! {

/// The bounded buffer's capacity: a full buffer is flushed as one chunk.
pub const CHUNK_SIZE: usize = 100;

/// Addition on the run counter, saturating at the counter's limit.
pub open spec fn sat_add_u64(a: u64, b: u64) -> u64 {
    if a + b > u64::MAX {
        u64::MAX
    } else {
        (a + b) as u64
    }
}

/// How a row's organizer is to be resolved: from the run cache, or by
/// persisting a new organizer row with the given values.
pub enum RowPlan {
    UseCached(i32),
    NeedInsert(OrganizerValues),
}

/// What admitting a row did: the row was skipped for the given reason,
/// buffered, or buffered and a full chunk handed out for upsert.
pub enum AdmitOutcome {
    Skipped(BuildError),
    Accepted,
    Flushed(Vec<EventData>),
}

/// The per-run pipeline state: the organizer dedup cache, the bounded
/// event buffer, and the count of events handed out so far.
pub struct Pipeline {
    pub cache: OrganizerCache,
    pub buffer: Vec<EventData>,
    pub total: u64,
}

impl Pipeline {
    /// The events buffered and not yet handed out, in feed order.
    pub open spec fn buffered(&self) -> Seq<EventDataV> {
        self.buffer@.map_values(|e: EventData| e@)
    }

    /// The cache is well-formed and the buffer is below its capacity.
    pub open spec fn wf(&self) -> bool {
        self.cache.wf() && self.buffer@.len() < CHUNK_SIZE
    }

    /// A pipeline at start of run, with the cache seeded by the caller.
    pub fn new(cache: OrganizerCache) -> (p: Pipeline)
        requires
            cache.wf(),
        ensures
            p.wf(),
            p.cache@ == cache@,
            p.buffered() == Seq::<EventDataV>::empty(),
            p.total == 0,
    {
        let p = Pipeline { cache, buffer: Vec::new(), total: 0 };
        proof {
            assert(p.buffered() =~= Seq::<EventDataV>::empty());
        }
        p
    }

    /// Plans a row's organizer resolution: the cached id when the row's
    /// key is seen, else the values for a new organizer row. No other
    /// outcome exists, and nothing changes.
    pub fn plan_row(&self, record: &RawEventRecord) -> (p: RowPlan)
        requires
            self.wf(),
        ensures
            match p {
                RowPlan::UseCached(id) => self.cache@.contains_key(key_of_record(record@))
                    && self.cache@[key_of_record(record@)] == id,
                RowPlan::NeedInsert(v) => !self.cache@.contains_key(key_of_record(record@)) && v@
                    == values_of_record(record@),
            },
    {
        let values = organizer_values_from_record(record);
        let key = build_organizer_key(&values);
        match self.cache.lookup(&key) {
            Some(id) => RowPlan::UseCached(id),
            None => RowPlan::NeedInsert(values),
        }
    }

    /// Admits a row once its organizer id is known: binds the row's key
    /// in the cache if it is new, then validates the timestamp, then the
    /// identifier; a valid row's event is buffered, and a buffer grown to
    /// capacity is handed out as one chunk and counted. The row's key is
    /// bound even when the row is later skipped, as the organizer row
    /// already persists.
    pub fn admit_row(&mut self, record: &RawEventRecord, organizer_id: i32) -> (r: AdmitOutcome)
        requires
            old(self).wf(),
        ensures
            final(self).wf(),
            final(self).cache@ == if old(self).cache@.contains_key(key_of_record(record@)) {
                old(self).cache@
            } else {
                old(self).cache@.insert(key_of_record(record@), organizer_id)
            },
            !row_stamp_ok(record@) ==> {
                &&& r == AdmitOutcome::Skipped(BuildError::InvalidTimestamp)
                &&& final(self).buffered() == old(self).buffered()
                &&& final(self).total == old(self).total
            },
            row_stamp_ok(record@) && !row_guid_ok(record@) ==> {
                &&& r == AdmitOutcome::Skipped(BuildError::InvalidGuid)
                &&& final(self).buffered() == old(self).buffered()
                &&& final(self).total == old(self).total
            },
            row_stamp_ok(record@) && row_guid_ok(record@) && old(self).buffered().len() + 1
                < CHUNK_SIZE ==> {
                &&& r == AdmitOutcome::Accepted
                &&& final(self).buffered() == old(self).buffered().push(
                    built_event(record@, organizer_id),
                )
                &&& final(self).total == old(self).total
            },
            row_stamp_ok(record@) && row_guid_ok(record@) && old(self).buffered().len() + 1
                == CHUNK_SIZE ==> {
                &&& r matches AdmitOutcome::Flushed(c) && c@.map_values(|e: EventData| e@) == old(
                    self,
                ).buffered().push(built_event(record@, organizer_id))
                &&& final(self).buffered() == Seq::<EventDataV>::empty()
                &&& final(self).total == sat_add_u64(old(self).total, CHUNK_SIZE as u64)
            },
    {
        let values = organizer_values_from_record(record);
        let key = build_organizer_key(&values);
        self.cache.insert_if_absent(key, organizer_id);
        let event = match build(record, organizer_id) {
            Ok(e) => e,
            Err(reason) => {
                return AdmitOutcome::Skipped(reason);
            },
        };
        self.buffer.push(event);
        proof {
            assert(self.buffered() =~= old(self).buffered().push(
                built_event(record@, organizer_id),
            ));
        }
        if self.buffer.len() == CHUNK_SIZE {
            let chunk = self.buffer.split_off(0);
            self.total = self.total.saturating_add(CHUNK_SIZE as u64);
            proof {
                assert(self.buffered() =~= Seq::<EventDataV>::empty());
            }
            AdmitOutcome::Flushed(chunk)
        } else {
            AdmitOutcome::Accepted
        }
    }

    /// Ends the run: a non-empty remainder is handed out as the final
    /// chunk and counted; an empty buffer yields nothing.
    pub fn finish(&mut self) -> (r: Option<Vec<EventData>>)
        requires
            old(self).wf(),
        ensures
            final(self).wf(),
            final(self).cache@ == old(self).cache@,
            final(self).buffered() == Seq::<EventDataV>::empty(),
            old(self).buffered().len() == 0 ==> r is None && final(self).total == old(self).total,
            old(self).buffered().len() > 0 ==> {
                &&& r matches Some(c) && c@.map_values(|e: EventData| e@) == old(self).buffered()
                &&& final(self).total == sat_add_u64(
                    old(self).total,
                    old(self).buffered().len() as u64,
                )
            },
    {
        if self.buffer.len() == 0 {
            proof {
                assert(self.buffered() =~= Seq::<EventDataV>::empty());
            }
            return None;
        }
        let chunk = self.buffer.split_off(0);
        let len = chunk.len();
        self.total = self.total.saturating_add(len as u64);
        proof {
            assert(self.buffered() =~= Seq::<EventDataV>::empty());
        }
        Some(chunk)
    }

    /// The count of events handed out for upsert so far.
    pub fn total(&self) -> (r: u64)
        ensures
            r == self.total,
    {
        self.total
    }
}

} // verus!
