//! The run-scoped organizer dedup cache: a map from normalized organizer
//! key to the persisted organizer's id, seeded from the store before the
//! run and grown as new organizers are persisted. Within one run, at
//! most one organizer is created per distinct key.

use vstd::prelude::*;
use crate::record::KeyV;
use crate::record::OrganizerKey;
use crate::text::bytes_eq;

verus! {

/// The organizer id a key is bound to, read off a run of entries where
/// a later binding of the same key wins.
pub open spec fn entries_map(s: Seq<(OrganizerKey, i32)>) -> Map<KeyV, i32>
    decreases s.len(),
{
    if s.len() == 0 {
        Map::empty()
    } else {
        entries_map(s.drop_last()).insert(s.last().0@, s.last().1)
    }
}

/// A key is bound exactly when some entry holds it.
pub proof fn lemma_entries_map_dom(s: Seq<(OrganizerKey, i32)>, k: KeyV)
    ensures
        entries_map(s).contains_key(k) <==> exists|i: int| 0 <= i < s.len() && s[i].0@ == k,
    decreases s.len(),
{
    if s.len() > 0 {
        lemma_entries_map_dom(s.drop_last(), k);
        if s.last().0@ == k {
            assert(s[s.len() - 1].0@ == k);
        } else if entries_map(s).contains_key(k) {
            let i = choose|i: int| 0 <= i < s.drop_last().len() && s.drop_last()[i].0@ == k;
            assert(s[i].0@ == k);
        } else {
            assert forall|i: int| 0 <= i < s.len() implies s[i].0@ != k by {
                if i < s.len() - 1 {
                    assert(s.drop_last()[i].0@ != k);
                }
            }
        }
    }
}

/// An entry whose key no later entry repeats gives the key's binding.
pub proof fn lemma_entries_map_at(s: Seq<(OrganizerKey, i32)>, i: int)
    requires
        0 <= i < s.len(),
        forall|j: int| i < j < s.len() ==> s[j].0@ != s[i].0@,
    ensures
        entries_map(s).contains_key(s[i].0@),
        entries_map(s)[s[i].0@] == s[i].1,
    decreases s.len(),
{
    lemma_entries_map_dom(s, s[i].0@);
    if i == s.len() - 1 {
    } else {
        assert(s.last().0@ != s[i].0@);
        assert(s.drop_last()[i] == s[i]);
        lemma_entries_map_at(s.drop_last(), i);
    }
}

/// Compares two organizer keys.
pub fn key_eq(a: &OrganizerKey, b: &OrganizerKey) -> (r: bool)
    ensures
        r == (a@ == b@),
{
    let r = bytes_eq(a.name.as_slice(), b.name.as_slice()) && bytes_eq(
        a.address.as_slice(),
        b.address.as_slice(),
    ) && bytes_eq(a.city.as_slice(), b.city.as_slice()) && bytes_eq(
        a.area.as_slice(),
        b.area.as_slice(),
    ) && bytes_eq(a.country.as_slice(), b.country.as_slice());
    proof {
        if r {
            assert(a@ =~= b@);
        }
    }
    r
}

/// The run-scoped dedup cache. Its view is the map from normalized
/// organizer key to organizer id.
pub struct OrganizerCache {
    entries: Vec<(OrganizerKey, i32)>,
}

impl View for OrganizerCache {
    type V = Map<KeyV, i32>;

    closed spec fn view(&self) -> Map<KeyV, i32> {
        entries_map(self.entries@)
    }
}

impl OrganizerCache {
    /// No two entries bind the same key.
    pub closed spec fn wf(&self) -> bool {
        forall|i: int, j: int|
            0 <= i < j < self.entries@.len() ==> self.entries@[i].0@ != self.entries@[j].0@
    }

    /// An empty cache, bound to no key.
    pub fn new() -> (c: OrganizerCache)
        ensures
            c.wf(),
            c@ == Map::<KeyV, i32>::empty(),
    {
        OrganizerCache { entries: Vec::new() }
    }

    /// The id the key is bound to, or `None` when the key is unseen.
    pub fn lookup(&self, key: &OrganizerKey) -> (r: Option<i32>)
        requires
            self.wf(),
        ensures
            r matches Some(id) ==> self@.contains_key(key@) && self@[key@] == id,
            r is None <==> !self@.contains_key(key@),
    {
        let n = self.entries.len();
        let mut i: usize = 0;
        while i < n
            invariant
                i <= n,
                n == self.entries@.len(),
                self.wf(),
                forall|k: int| 0 <= k < i ==> self.entries@[k].0@ != key@,
            decreases n - i,
        {
            let hit = key_eq(&self.entries[i].0, key);
            if hit {
                proof {
                    lemma_entries_map_at(self.entries@, i as int);
                }
                return Some(self.entries[i].1);
            }
            i = i + 1;
        }
        proof {
            lemma_entries_map_dom(self.entries@, key@);
        }
        None
    }

    /// Binds an unseen key to an id.
    pub fn insert(&mut self, key: OrganizerKey, id: i32)
        requires
            old(self).wf(),
            !old(self)@.contains_key(key@),
        ensures
            final(self).wf(),
            final(self)@ == old(self)@.insert(key@, id),
    {
        proof {
            lemma_entries_map_dom(self.entries@, key@);
        }
        let ghost before = self.entries@;
        self.entries.push((key, id));
        proof {
            assert(self.entries@.drop_last() =~= before);
            assert forall|i: int, j: int| 0 <= i < j < self.entries@.len() implies self.entries@[i].0@
                != self.entries@[j].0@ by {
                if j < self.entries@.len() - 1 {
                    assert(before[i].0@ != before[j].0@);
                } else {
                    assert(before[i].0@ != self.entries@[j].0@);
                }
            }
        }
    }

    /// Binds the key to the id unless the key is already bound: the
    /// first binding of a key wins, as when the cache is seeded from
    /// the store.
    pub fn insert_if_absent(&mut self, key: OrganizerKey, id: i32)
        requires
            old(self).wf(),
        ensures
            final(self).wf(),
            final(self)@ == if old(self)@.contains_key(key@) {
                old(self)@
            } else {
                old(self)@.insert(key@, id)
            },
    {
        match self.lookup(&key) {
            Some(_) => {},
            None => {
                self.insert(key, id);
            },
        }
    }
}

} // verus!
