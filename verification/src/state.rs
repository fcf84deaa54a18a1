//! The application state and the per-tick orchestrator. One external refresh
//! tick reconciles the freshly received scan result, at most one pending
//! change notification, and a pending navigation into the navigation state,
//! the entry list, and the commands owed to the watch worker.

use vstd::prelude::*;
use crate::entries::{
    build_local, build_recursive, local_listing, recursive_listing, ChildInfo, DirEntry,
    EntryModel,
};
use crate::index::{unique_paths, IndexEntry, IndexStore};
use crate::search::{compile_model, Matcher, MatcherModel};
use crate::settings::{SearchSettings, Settings};
use crate::text::str_eq;
use crate::watch::{kind_triggers_rebuild, reconcile, reconcile_pairs, triggers_rebuild,
    ChangeEvent, WatchCommand};

verus! {

/// Which panel the presentation layer shows.
#[derive(Clone, Copy, Debug, PartialEq, Eq, Structural)]
pub enum PanelOpen {
    FileMenu,
    Settings,
}

/// An in-flight rename: the text being edited and the path it will replace.
#[derive(Clone, Debug)]
pub struct Rename {
    pub value: String,
    pub target: Option<String>,
}

impl Default for Rename {
    fn default() -> (d: Rename)
        ensures
            d.value@.len() == 0,
            d.target is None,
    {
        Rename { value: String::new(), target: None }
    }
}

/// The models of an entry list.
pub open spec fn entry_models(es: Seq<DirEntry>) -> Seq<EntryModel> {
    es.map_values(|e: DirEntry| e.model())
}

/// No two of these strings read the same.
pub open spec fn unique_strings(s: Seq<String>) -> bool {
    forall|i: int, j: int| 0 <= i < j < s.len() ==> s[i]@ != s[j]@
}

/// Some of these strings reads `p`.
pub open spec fn holds_path(s: Seq<String>, p: Seq<char>) -> bool {
    exists|i: int| 0 <= i < s.len() && (#[trigger] s[i]@) == p
}

/// `s` with every string reading `p` left out, order kept.
pub open spec fn without_path(s: Seq<String>, p: Seq<char>) -> Seq<String>
    decreases s.len(),
{
    if s.len() == 0 {
        s
    } else {
        let rest = without_path(s.drop_last(), p);
        if s.last()@ == p {
            rest
        } else {
            rest.push(s.last())
        }
    }
}

/// Leaving out `p` removes exactly the strings reading `p` and keeps the rest
/// distinct.
proof fn lemma_without_path(s: Seq<String>, p: Seq<char>)
    ensures
        forall|q: Seq<char>|
            #[trigger] holds_path(without_path(s, p), q) <==> (holds_path(s, q) && q != p),
        unique_strings(s) ==> unique_strings(without_path(s, p)),
    decreases s.len(),
{
    if s.len() > 0 {
        let d = s.drop_last();
        lemma_without_path(d, p);
        let w = without_path(s, p);
        let wd = without_path(d, p);
        assert forall|q: Seq<char>| holds_path(w, q) implies (holds_path(s, q) && q != p) by {
            let k = choose|k: int| 0 <= k < w.len() && w[k]@ == q;
            if s.last()@ != p && k == w.len() - 1 {
                assert(s[s.len() - 1]@ == q);
            } else {
                assert(wd[k]@ == q);
                assert(holds_path(wd, q));
                assert(holds_path(d, q));
                let j = choose|j: int| 0 <= j < d.len() && d[j]@ == q;
                assert(s[j]@ == q);
            }
        }
        assert forall|q: Seq<char>| (holds_path(s, q) && q != p) implies holds_path(w, q) by {
            let j = choose|j: int| 0 <= j < s.len() && s[j]@ == q;
            if j == s.len() - 1 {
                assert(w[w.len() - 1]@ == q);
            } else {
                assert(d[j]@ == q);
                assert(holds_path(d, q));
                assert(holds_path(wd, q));
                let k = choose|k: int| 0 <= k < wd.len() && wd[k]@ == q;
                assert(w[k]@ == q);
            }
        }
        if unique_strings(s) {
            assert(unique_strings(d));
            if s.last()@ != p {
                assert forall|a: int, b: int| 0 <= a < b < w.len() implies w[a]@ != w[b]@ by {
                    if b < w.len() - 1 {
                        assert(wd[a]@ != wd[b]@);
                    } else {
                        assert(w[b] == s.last());
                        assert(holds_path(wd, w[a]@));
                        if w[a]@ == s.last()@ {
                            assert(holds_path(d, s.last()@));
                            let j = choose|j: int| 0 <= j < d.len() && d[j]@ == s.last()@;
                            assert(s[j]@ != s[s.len() - 1]@);
                            assert(false);
                        }
                    }
                }
            }
        }
    }
}

/// The state the orchestrator drives: where the user is, what is pinned, the
/// one-shot size index, and the latest entry list.
pub struct Themis {
    pub navigation: String,
    pub search: String,
    pub rename: Rename,
    pub current_path: String,
    pub pinned_dirs: Vec<String>,
    pub last_path: String,
    pub selected_path: String,
    pub drive_list: Vec<String>,
    pub index: IndexStore,
    pub dir_entries: Vec<DirEntry>,
    pub panel_open: PanelOpen,
    pub settings: Settings,
    pub search_dirty: bool,
}

/// Whether this tick consumes the scan result: one arrived and none was
/// consumed before.
pub open spec fn consumes_index(s: Themis, index_result: Option<Vec<IndexEntry>>) -> bool {
    index_result is Some && !s.index.is_populated()
}

/// Whether the drained event makes the entry list stale.
pub open spec fn event_triggers(event: Option<ChangeEvent>) -> bool {
    match event {
        Some(e) => triggers_rebuild(e.kind),
        None => false,
    }
}

/// Whether a settled state must rebuild its entry list this tick.
pub open spec fn rebuild_needed(
    s: Themis,
    index_result: Option<Vec<IndexEntry>>,
    event: Option<ChangeEvent>,
) -> bool {
    consumes_index(s, index_result) || event_triggers(event) || s.search_dirty
}

impl Themis {
    /// The index is well formed and no directory is pinned twice.
    pub open spec fn wf(self) -> bool {
        self.index.wf() && unique_strings(self.pinned_dirs@)
    }

    /// A navigation is pending: the user moved, the entry list has not
    /// followed yet.
    pub open spec fn nav_pending(self) -> bool {
        self.current_path@ != self.last_path@
    }

    /// The matcher the current query and options compile to.
    pub open spec fn matcher_model(self) -> MatcherModel {
        compile_model(
            self.search@,
            self.settings.search.mode,
            self.settings.search.sensitive,
            self.settings.search.strict,
        )
    }

    /// Whether candidates are drawn from the index rather than the children:
    /// the recursive option is on and there is a query.
    pub open spec fn recursive_scope(self) -> bool {
        self.settings.search.recursive && self.search@.len() > 0
    }

    /// The entry list this state owes its reader, given the enumerated
    /// children of the current directory.
    pub open spec fn desired_listing(self, children: Seq<ChildInfo>) -> Seq<EntryModel> {
        if self.recursive_scope() {
            if self.index.is_populated() {
                recursive_listing(self.current_path@, self.matcher_model(), self.index.records_view())
            } else {
                Seq::empty()
            }
        } else {
            local_listing(self.current_path@, self.index.as_map(), self.matcher_model(), children)
        }
    }

    /// The state of session start: everything at the given start directory,
    /// nothing pinned, nothing indexed, default options.
    pub fn new(start_path: String) -> (s: Themis)
        ensures
            s.wf(),
            s.current_path == start_path,
            s.last_path@ == start_path@,
            s.navigation@ == start_path@,
            s.selected_path@ == start_path@,
            s.search@.len() == 0,
            s.dir_entries@.len() == 0,
            s.pinned_dirs@.len() == 0,
            s.drive_list@.len() == 0,
            !s.index.is_populated(),
            s.settings.is_default(),
            !s.search_dirty,
            s.rename.value@.len() == 0,
            s.rename.target is None,
            s.panel_open == PanelOpen::FileMenu,
            !s.nav_pending(),
    {
        Themis {
            navigation: start_path.clone(),
            search: String::new(),
            rename: Rename::default(),
            current_path: start_path.clone(),
            pinned_dirs: Vec::new(),
            last_path: start_path.clone(),
            selected_path: start_path,
            drive_list: Vec::new(),
            index: IndexStore::new(),
            dir_entries: Vec::new(),
            panel_open: PanelOpen::FileMenu,
            settings: Settings::default(),
            search_dirty: false,
        }
    }

    /// A user intent: move to `path`. Only `current_path` changes; the next
    /// tick settles or reverts it.
    pub fn navigate(&mut self, path: String)
        ensures
            *final(self) == (Themis { current_path: path, ..*old(self) }),
    {
        self.current_path = path;
    }

    /// A user intent: change the search query. The next rebuild uses it.
    pub fn set_search(&mut self, query: String)
        ensures
            *final(self) == (Themis { search: query, search_dirty: true, ..*old(self) }),
    {
        self.search = query;
        self.search_dirty = true;
    }

    /// A user intent: change the search options. The next rebuild uses them.
    pub fn set_search_settings(&mut self, search: SearchSettings)
        ensures
            *final(self) == (Themis {
                settings: Settings { search, ..old(self).settings },
                search_dirty: true,
                ..*old(self)
            }),
    {
        self.settings.search = search;
        self.search_dirty = true;
    }

    /// A user intent: pin the directory `path`. Pinning one already pinned
    /// changes nothing; the pin list stays deduplicated.
    pub fn pin(&mut self, path: String)
        requires
            old(self).wf(),
        ensures
            final(self).wf(),
            holds_path(old(self).pinned_dirs@, path@) ==> *final(self) == *old(self),
            !holds_path(old(self).pinned_dirs@, path@) ==> final(self).pinned_dirs@ == old(
                self,
            ).pinned_dirs@.push(path),
            *final(self) == (Themis { pinned_dirs: final(self).pinned_dirs, ..*old(self) }),
    {
        if !self.has_pin(path.as_str()) {
            self.pinned_dirs.push(path);
        }
    }

    /// Whether `path` is pinned.
    pub fn has_pin(&self, path: &str) -> (r: bool)
        ensures
            r == holds_path(self.pinned_dirs@, path@),
    {
        let n = self.pinned_dirs.len();
        let mut i: usize = 0;
        while i < n
            invariant
                n == self.pinned_dirs@.len(),
                i <= n,
                forall|j: int| 0 <= j < i ==> self.pinned_dirs@[j]@ != path@,
            decreases n - i,
        {
            if str_eq(self.pinned_dirs[i].as_str(), path) {
                return true;
            }
            i = i + 1;
        }
        false
    }

    /// A user intent: unpin the directory `path`. Every pin reading `path`
    /// goes; the others keep their order.
    pub fn unpin(&mut self, path: &str)
        requires
            old(self).wf(),
        ensures
            final(self).wf(),
            final(self).pinned_dirs@ == without_path(old(self).pinned_dirs@, path@),
            *final(self) == (Themis { pinned_dirs: final(self).pinned_dirs, ..*old(self) }),
    {
        let n = self.pinned_dirs.len();
        let mut kept: Vec<String> = Vec::new();
        let mut i: usize = 0;
        while i < n
            invariant
                n == self.pinned_dirs@.len(),
                i <= n,
                *self == *old(self),
                kept@ == without_path(self.pinned_dirs@.subrange(0, i as int), path@),
            decreases n - i,
        {
            proof {
                assert(self.pinned_dirs@.subrange(0, i + 1).drop_last() =~= self.pinned_dirs@
                    .subrange(0, i as int));
                assert(self.pinned_dirs@.subrange(0, i + 1).last() == self.pinned_dirs@[i as int]);
            }
            if !str_eq(self.pinned_dirs[i].as_str(), path) {
                kept.push(self.pinned_dirs[i].clone());
            }
            i = i + 1;
        }
        proof {
            assert(self.pinned_dirs@.subrange(0, n as int) =~= self.pinned_dirs@);
            lemma_without_path(self.pinned_dirs@, path@);
        }
        self.pinned_dirs = kept;
    }

    /// The entry list owed right now: compiles the matcher and runs the
    /// lister in the scope the options select.
    fn rebuild_entries(&self, children: &Vec<ChildInfo>) -> (r: Vec<DirEntry>)
        requires
            self.wf(),
        ensures
            entry_models(r@) == self.desired_listing(children@),
    {
        let m = Matcher::compile(
            self.search.as_str(),
            self.settings.search.mode,
            self.settings.search.sensitive,
            self.settings.search.strict,
        );
        if self.settings.search.recursive && !self.search.as_str().is_empty() {
            build_recursive(self.current_path.as_str(), &self.index, &m)
        } else {
            build_local(self.current_path.as_str(), &self.index, &m, children)
        }
    }

    /// One external refresh tick.
    ///
    /// The caller polls its channels and enumerates the current directory,
    /// then hands over: the scan result if one just arrived, at most one
    /// drained change event, and the children of `current_path` (`None` when
    /// that directory cannot be read). The tick consumes the scan result at
    /// most once for the session; settles a pending navigation on success and
    /// reverts `current_path` on failure, never losing the entry list; only a
    /// settling navigation yields watch commands, the unwatch of the old root
    /// before the watch of the new; and with no pending navigation and no
    /// stale input it leaves the entry list exactly as it was.
    pub fn tick(
        &mut self,
        index_result: Option<Vec<IndexEntry>>,
        event: Option<ChangeEvent>,
        listing: Option<Vec<ChildInfo>>,
    ) -> (cmds: Vec<WatchCommand>)
        requires
            old(self).wf(),
            index_result matches Some(r) ==> unique_paths(r@),
        ensures
            final(self).wf(),
            // the index transitions to populated exactly once
            final(self).index.is_populated() == (old(self).index.is_populated()
                || index_result is Some),
            consumes_index(*old(self), index_result) ==> (index_result matches Some(r)
                && final(self).index.records_view() == r@),
            !consumes_index(*old(self), index_result) ==> final(self).index == old(self).index,
            // what a tick never touches
            final(self).search == old(self).search,
            final(self).settings == old(self).settings,
            final(self).pinned_dirs == old(self).pinned_dirs,
            final(self).rename == old(self).rename,
            final(self).selected_path == old(self).selected_path,
            final(self).drive_list == old(self).drive_list,
            final(self).panel_open == old(self).panel_open,
            // a pending navigation settles on a readable directory
            old(self).nav_pending() && listing is Some ==> ({
                &&& final(self).current_path == old(self).current_path
                &&& final(self).last_path@ == old(self).current_path@
                &&& final(self).navigation@ == old(self).current_path@
                &&& (listing matches Some(children) ==> entry_models(final(self).dir_entries@)
                    == final(self).desired_listing(children@))
                &&& cmds@.map_values(|c: WatchCommand| c.model()) == reconcile_pairs(
                    Some(old(self).last_path@),
                    old(self).current_path@,
                )
                &&& !final(self).search_dirty
            }),
            // and reverts on an unreadable one, leaving the entry list as it was
            old(self).nav_pending() && listing is None ==> ({
                &&& final(self).current_path@ == old(self).last_path@
                &&& final(self).last_path == old(self).last_path
                &&& final(self).navigation == old(self).navigation
                &&& final(self).dir_entries == old(self).dir_entries
                &&& cmds@.len() == 0
                &&& final(self).search_dirty == old(self).search_dirty
            }),
            // a settled state stays settled and owes no watch command
            !old(self).nav_pending() ==> ({
                &&& final(self).current_path == old(self).current_path
                &&& final(self).last_path == old(self).last_path
                &&& final(self).navigation == old(self).navigation
                &&& cmds@.len() == 0
            }),
            // it rebuilds when something became stale and the directory reads
            !old(self).nav_pending() && rebuild_needed(*old(self), index_result, event) ==> ({
                &&& (listing matches Some(children) ==> entry_models(final(self).dir_entries@)
                    == final(self).desired_listing(children@) && !final(self).search_dirty)
                &&& (listing is None ==> final(self).dir_entries == old(self).dir_entries
                    && final(self).search_dirty == old(self).search_dirty)
            }),
            // and with nothing stale the entry list is untouched
            !old(self).nav_pending() && !rebuild_needed(*old(self), index_result, event) ==> ({
                &&& final(self).dir_entries == old(self).dir_entries
                &&& final(self).search_dirty == old(self).search_dirty
            }),
    {
        let mut rebuild = false;
        match index_result {
            Some(records) => {
                if !self.index.populated {
                    self.index.install(records);
                    rebuild = true;
                }
            },
            None => {},
        }
        match &event {
            Some(e) => {
                if kind_triggers_rebuild(e.kind) {
                    rebuild = true;
                }
            },
            None => {},
        }
        let nav_pending = !str_eq(self.current_path.as_str(), self.last_path.as_str());
        let mut cmds: Vec<WatchCommand> = Vec::new();
        if nav_pending {
            match &listing {
                Some(children) => {
                    let entries = self.rebuild_entries(children);
                    self.dir_entries = entries;
                    cmds = reconcile(Some(&self.last_path), &self.current_path);
                    self.last_path = self.current_path.clone();
                    self.navigation = self.current_path.clone();
                    self.search_dirty = false;
                },
                None => {
                    self.current_path = self.last_path.clone();
                },
            }
        } else if rebuild || self.search_dirty {
            match &listing {
                Some(children) => {
                    let entries = self.rebuild_entries(children);
                    self.dir_entries = entries;
                    self.search_dirty = false;
                },
                None => {},
            }
        }
        cmds
    }
}

} // verus!

