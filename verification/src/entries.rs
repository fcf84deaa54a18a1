//! The lister: builds the ordered, display-ready entry list for the current
//! directory, combining live enumeration, index lookups and the compiled
//! matcher. In local scope candidates are the enumerated children; in
//! recursive scope the index alone is authoritative for which descendants
//! exist.

use vstd::prelude::*;
use crate::index::{size_of, IndexEntry, IndexStore};
use crate::paths::{file_name_of, join_path, join_seq, segment_of};
use crate::search::{Matcher, MatcherModel};
use crate::text::{is_prefix, str_starts_with};

verus! {

/// What a single live enumeration step reports of one child: its name and the
/// two metadata bits the display needs. `is_empty` is true only for a
/// directory with zero children.
#[derive(Clone, Debug)]
pub struct ChildInfo {
    pub name: String,
    pub is_dir: bool,
    pub is_empty: bool,
}

/// One presentation-ready entry; derived, never persisted.
#[derive(Clone, Debug)]
pub struct DirEntry {
    pub path: String,
    pub name: String,
    pub size: u64,
    pub is_dir: bool,
    pub is_empty: bool,
}

/// The mathematical content of one entry.
pub struct EntryModel {
    pub path: Seq<char>,
    pub name: Seq<char>,
    pub size: u64,
    pub is_dir: bool,
    pub is_empty: bool,
}

impl Default for DirEntry {
    /// The empty entry: no path, no name, size zero, not a directory. Every
    /// real entry carries its path explicitly; nothing here reads ambient
    /// state.
    fn default() -> (d: DirEntry)
        ensures
            d.path@.len() == 0,
            d.name@.len() == 0,
            d.size == 0,
            !d.is_dir,
            !d.is_empty,
    {
        DirEntry {
            path: String::new(),
            name: String::new(),
            size: 0,
            is_dir: false,
            is_empty: false,
        }
    }
}

impl DirEntry {
    pub open spec fn model(self) -> EntryModel {
        EntryModel {
            path: self.path@,
            name: self.name@,
            size: self.size,
            is_dir: self.is_dir,
            is_empty: self.is_empty,
        }
    }
}

/// Whether the matcher keeps a candidate: an empty query keeps everything.
pub open spec fn keeps(m: MatcherModel, cand: Seq<char>) -> bool {
    m.query.len() == 0 || m.accepts(cand)
}

/// The entry a kept child of `cur` yields: its path is the join, its size the
/// index lookup of that path, its metadata what the enumeration reported.
pub open spec fn local_entry(cur: Seq<char>, store: Map<Seq<char>, u64>, c: ChildInfo) -> EntryModel {
    EntryModel {
        path: join_seq(cur, c.name@),
        name: c.name@,
        size: size_of(store, join_seq(cur, c.name@)),
        is_dir: c.is_dir,
        is_empty: c.is_empty,
    }
}

/// The local-scope listing: the children whose names the matcher keeps, in
/// enumeration order, each completed with path and size.
pub open spec fn local_listing(
    cur: Seq<char>,
    store: Map<Seq<char>, u64>,
    m: MatcherModel,
    children: Seq<ChildInfo>,
) -> Seq<EntryModel>
    decreases children.len(),
{
    if children.len() == 0 {
        Seq::empty()
    } else {
        let rest = local_listing(cur, store, m, children.drop_last());
        let c = children.last();
        if keeps(m, c.name@) {
            rest.push(local_entry(cur, store, c))
        } else {
            rest
        }
    }
}

/// What a recursive match is held against: the whole path, or only its
/// trailing segment when the strict option anchors the match to the exact
/// name.
pub open spec fn recursive_candidate(m: MatcherModel, path: Seq<char>) -> Seq<char> {
    if m.strict {
        segment_of(path)
    } else {
        path
    }
}

/// Whether an index record survives in recursive scope: its path starts with
/// the current path, and the matcher keeps its candidate.
pub open spec fn recursive_keeps(m: MatcherModel, cur: Seq<char>, e: IndexEntry) -> bool {
    is_prefix(e.path@, cur) && keeps(m, recursive_candidate(m, e.path@))
}

/// The entry a surviving index record yields. The index holds files, so the
/// directory bits are false.
pub open spec fn recursive_entry(e: IndexEntry) -> EntryModel {
    EntryModel {
        path: e.path@,
        name: segment_of(e.path@),
        size: e.real_size,
        is_dir: false,
        is_empty: false,
    }
}

/// The recursive-scope listing: the surviving index records, in index order.
pub open spec fn recursive_listing(
    cur: Seq<char>,
    m: MatcherModel,
    records: Seq<IndexEntry>,
) -> Seq<EntryModel>
    decreases records.len(),
{
    if records.len() == 0 {
        Seq::empty()
    } else {
        let rest = recursive_listing(cur, m, records.drop_last());
        let e = records.last();
        if recursive_keeps(m, cur, e) {
            rest.push(recursive_entry(e))
        } else {
            rest
        }
    }
}

/// Whether the matcher keeps this candidate, the executable side of `keeps`.
fn keeps_exec(m: &Matcher, cand: &str) -> (r: bool)
    ensures
        r == keeps(m.model(), cand@),
{
    m.query.as_str().is_empty() || m.matches(cand)
}

/// Builds the local-scope entry list from one non-recursive enumeration of
/// the current directory's children.
pub fn build_local(
    cur: &str,
    index: &IndexStore,
    m: &Matcher,
    children: &Vec<ChildInfo>,
) -> (r: Vec<DirEntry>)
    requires
        index.wf(),
    ensures
        r@.map_values(|e: DirEntry| e.model()) == local_listing(
            cur@,
            index.as_map(),
            m.model(),
            children@,
        ),
{
    let n = children.len();
    let mut r: Vec<DirEntry> = Vec::new();
    let mut i: usize = 0;
    while i < n
        invariant
            n == children@.len(),
            i <= n,
            index.wf(),
            r@.map_values(|e: DirEntry| e.model()) == local_listing(
                cur@,
                index.as_map(),
                m.model(),
                children@.subrange(0, i as int),
            ),
        decreases n - i,
    {
        let c = &children[i];
        if keeps_exec(m, c.name.as_str()) {
            let path = join_path(cur, c.name.as_str());
            let size = index.lookup(path.as_str());
            let entry = DirEntry {
                path,
                name: c.name.clone(),
                size,
                is_dir: c.is_dir,
                is_empty: c.is_empty,
            };
            r.push(entry);
        }
        proof {
            assert(children@.subrange(0, i + 1).drop_last() =~= children@.subrange(0, i as int));
            assert(children@.subrange(0, i + 1).last() == children@[i as int]);
            assert(r@.map_values(|e: DirEntry| e.model()) =~= local_listing(
                cur@,
                index.as_map(),
                m.model(),
                children@.subrange(0, i + 1),
            ));
        }
        i = i + 1;
    }
    proof {
        assert(children@.subrange(0, n as int) =~= children@);
    }
    r
}

/// Builds the recursive-scope entry list from the index. Meaningful only once
/// the index is populated; before that it yields no matches, which is not an
/// error.
pub fn build_recursive(cur: &str, index: &IndexStore, m: &Matcher) -> (r: Vec<DirEntry>)
    requires
        index.wf(),
    ensures
        r@.map_values(|e: DirEntry| e.model()) == (if index.is_populated() {
            recursive_listing(cur@, m.model(), index.records_view())
        } else {
            Seq::<EntryModel>::empty()
        }),
{
    let mut r: Vec<DirEntry> = Vec::new();
    if !index.populated {
        return r;
    }
    let n = index.len();
    let mut i: usize = 0;
    while i < n
        invariant
            n == index.records_view().len(),
            i <= n,
            index.wf(),
            r@.map_values(|e: DirEntry| e.model()) == recursive_listing(
                cur@,
                m.model(),
                index.records_view().subrange(0, i as int),
            ),
        decreases n - i,
    {
        let e = index.record_at(i);
        let surviving = if str_starts_with(e.path.as_str(), cur) {
            let cand = if m.strict {
                file_name_of(e.path.as_str())
            } else {
                e.path.clone()
            };
            keeps_exec(m, cand.as_str())
        } else {
            false
        };
        if surviving {
            let entry = DirEntry {
                path: e.path.clone(),
                name: file_name_of(e.path.as_str()),
                size: e.real_size,
                is_dir: false,
                is_empty: false,
            };
            r.push(entry);
        }
        proof {
            let recs = index.records_view();
            assert(recs.subrange(0, i + 1).drop_last() =~= recs.subrange(0, i as int));
            assert(recs.subrange(0, i + 1).last() == recs[i as int]);
            assert(r@.map_values(|e: DirEntry| e.model()) =~= recursive_listing(
                cur@,
                m.model(),
                recs.subrange(0, i + 1),
            ));
        }
        i = i + 1;
    }
    proof {
        assert(index.records_view().subrange(0, n as int) =~= index.records_view());
    }
    r
}

} // verus!
