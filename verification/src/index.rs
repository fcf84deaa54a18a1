//! The volume size index: an authoritative path-to-size mapping, populated at
//! most once per session from the background volume scan, and read through
//! non-blocking lookups that degrade to `0` for unknown paths.

use vstd::prelude::*;
use crate::text::str_eq;

verus! {

/// One record of the volume index: an absolute path and the real size of the
/// file there, in bytes. The real size may diverge from the apparent size
/// (compression, sparseness); that is intentional.
#[derive(Clone, Debug)]
pub struct IndexEntry {
    pub path: String,
    pub real_size: u64,
}

/// The path-to-size mapping that `records` denotes, later records winning.
pub open spec fn records_map(s: Seq<IndexEntry>) -> Map<Seq<char>, u64>
    decreases s.len(),
{
    if s.len() == 0 {
        Map::empty()
    } else {
        records_map(s.drop_last()).insert(s.last().path@, s.last().real_size)
    }
}

/// No two records name the same path.
pub open spec fn unique_paths(s: Seq<IndexEntry>) -> bool {
    forall|i: int, j: int| 0 <= i < j < s.len() ==> s[i].path@ != s[j].path@
}

/// The size that the mapping `m` gives `p`: `0` when `p` is absent, which a
/// caller must read as "unknown", not "confirmed empty".
pub open spec fn size_of(m: Map<Seq<char>, u64>, p: Seq<char>) -> u64 {
    if m.contains_key(p) {
        m[p]
    } else {
        0
    }
}

/// A path is a key of `records_map(s)` exactly when some record names it, and
/// with unique paths that record gives its value.
proof fn lemma_records_map_index(s: Seq<IndexEntry>, p: Seq<char>)
    ensures
        records_map(s).contains_key(p) <==> exists|i: int|
            0 <= i < s.len() && s[i].path@ == p,
        unique_paths(s) ==> forall|i: int|
            0 <= i < s.len() && s[i].path@ == p ==> records_map(s).contains_key(p)
                && records_map(s)[p] == s[i].real_size,
    decreases s.len(),
{
    if s.len() > 0 {
        lemma_records_map_index(s.drop_last(), p);
        if s.last().path@ == p {
            assert(s[s.len() - 1].path@ == p);
        } else {
            assert(forall|i: int| 0 <= i < s.len() - 1 && s.drop_last()[i].path@ == p ==> s[i].path@
                == p);
        }
    }
}

/// The in-core cache of the volume scan. It starts empty, transitions at most
/// once to populated, and is never invalidated for the rest of the session.
#[derive(Clone, Debug)]
pub struct IndexStore {
    pub records: Vec<IndexEntry>,
    pub populated: bool,
}

impl IndexStore {
    /// The records, in the order the scan delivered them.
    pub open spec fn records_view(self) -> Seq<IndexEntry> {
        self.records@
    }

    /// Whether the scan result has been received.
    pub open spec fn is_populated(self) -> bool {
        self.populated
    }

    /// The path-to-size mapping this store holds.
    pub open spec fn as_map(self) -> Map<Seq<char>, u64> {
        records_map(self.records@)
    }

    /// Paths are unique, and nothing is held before the scan result arrives.
    pub open spec fn wf(self) -> bool {
        unique_paths(self.records@) && (!self.populated ==> self.records@.len() == 0)
    }

    /// The empty store of session start.
    pub fn new() -> (s: IndexStore)
        ensures
            s.wf(),
            !s.is_populated(),
            s.records_view().len() == 0,
            s.as_map() == Map::<Seq<char>, u64>::empty(),
    {
        IndexStore { records: Vec::new(), populated: false }
    }

    /// Receives the completed scan: the single transition to populated.
    pub fn install(&mut self, records: Vec<IndexEntry>)
        requires
            !old(self).is_populated(),
            unique_paths(records@),
        ensures
            final(self).wf(),
            final(self).is_populated(),
            final(self).records_view() == records@,
            final(self).as_map() == records_map(records@),
    {
        self.records = records;
        self.populated = true;
    }

    /// The number of records held.
    pub fn len(&self) -> (n: usize)
        ensures
            n == self.records_view().len(),
    {
        self.records.len()
    }

    /// The record at position `i`.
    pub fn record_at(&self, i: usize) -> (e: &IndexEntry)
        requires
            i < self.records_view().len(),
        ensures
            *e == self.records_view()[i as int],
    {
        &self.records[i]
    }

    /// The size recorded for `path`, and `0` for any path absent from the
    /// store, including while the scan is still in flight.
    pub fn lookup(&self, path: &str) -> (size: u64)
        requires
            self.wf(),
        ensures
            size == size_of(self.as_map(), path@),
    {
        proof {
            lemma_records_map_index(self.records@, path@);
        }
        let n = self.records.len();
        let mut i: usize = 0;
        while i < n
            invariant
                n == self.records@.len(),
                i <= n,
                unique_paths(self.records@),
                forall|j: int| 0 <= j < i ==> self.records@[j].path@ != path@,
                records_map(self.records@).contains_key(path@) <==> exists|k: int|
                    0 <= k < n && self.records@[k].path@ == path@,
                forall|k: int|
                    0 <= k < n && self.records@[k].path@ == path@ ==> records_map(
                        self.records@,
                    ).contains_key(path@) && records_map(self.records@)[path@]
                        == self.records@[k].real_size,
            decreases n - i,
        {
            if str_eq(self.records[i].path.as_str(), path) {
                return self.records[i].real_size;
            }
            i = i + 1;
        }
        0
    }
}

} // verus!
