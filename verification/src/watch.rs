//! Change-watch reconciliation. One long-lived worker owns the OS watch
//! handle; it is driven by an ordered command queue, so the watched set only
//! changes by the commands it dequeues. The library states what every command
//! does to that set and proves that reconciliation keeps exactly one root
//! watched.

use vstd::prelude::*;
use crate::text::str_eq;

verus! {

/// A command to the watch worker: start or stop watching a directory root.
#[derive(Clone, Copy, Debug, PartialEq, Eq, Structural)]
pub enum DirWatcherEvent {
    Add,
    Remove,
}

/// One queued command: what to do, and the root to do it to.
#[derive(Clone, Debug)]
pub struct WatchCommand {
    pub kind: DirWatcherEvent,
    pub path: String,
}

impl WatchCommand {
    pub open spec fn model(self) -> (DirWatcherEvent, Seq<char>) {
        (self.kind, self.path@)
    }
}

/// The kind of a normalized change notification.
#[derive(Clone, Copy, Debug, PartialEq, Eq, Structural)]
pub enum ChangeKind {
    Created,
    Removed,
    Other,
}

/// A normalized change notification: its kind and the paths it affects.
#[derive(Clone, Debug)]
pub struct ChangeEvent {
    pub kind: ChangeKind,
    pub paths: Vec<String>,
}

/// Whether an event kind makes the entry list stale: something was created or
/// removed.
pub open spec fn triggers_rebuild(kind: ChangeKind) -> bool {
    kind == ChangeKind::Created || kind == ChangeKind::Removed
}

/// The executable side of `triggers_rebuild`.
pub fn kind_triggers_rebuild(kind: ChangeKind) -> (r: bool)
    ensures
        r == triggers_rebuild(kind),
{
    match kind {
        ChangeKind::Created => true,
        ChangeKind::Removed => true,
        ChangeKind::Other => false,
    }
}

/// What one command does to the watched set: `Add` subscribes its root,
/// `Remove` unsubscribes it, a no-op when the root is absent.
pub open spec fn apply_pair(w: Set<Seq<char>>, kind: DirWatcherEvent, path: Seq<char>) -> Set<
    Seq<char>,
> {
    match kind {
        DirWatcherEvent::Add => w.insert(path),
        DirWatcherEvent::Remove => w.remove(path),
    }
}

/// What a queue of commands does to the watched set, in order.
pub open spec fn apply_pairs(w: Set<Seq<char>>, cmds: Seq<(DirWatcherEvent, Seq<char>)>) -> Set<
    Seq<char>,
>
    decreases cmds.len(),
{
    if cmds.len() == 0 {
        w
    } else {
        apply_pair(apply_pairs(w, cmds.drop_last()), cmds.last().0, cmds.last().1)
    }
}

/// The command pair of one reconciliation: unwatch the old root (if any),
/// then watch the new one, in that order.
pub open spec fn reconcile_pairs(old_root: Option<Seq<char>>, new_root: Seq<char>) -> Seq<
    (DirWatcherEvent, Seq<char>),
> {
    match old_root {
        Some(p) => seq![(DirWatcherEvent::Remove, p), (DirWatcherEvent::Add, new_root)],
        None => seq![(DirWatcherEvent::Add, new_root)],
    }
}

/// Builds the commands of one reconciliation, a single atomic enqueue.
pub fn reconcile(old_root: Option<&String>, new_root: &String) -> (cmds: Vec<WatchCommand>)
    ensures
        cmds@.map_values(|c: WatchCommand| c.model()) == reconcile_pairs(
            match old_root {
                Some(p) => Some(p@),
                None => None,
            },
            new_root@,
        ),
{
    let mut cmds: Vec<WatchCommand> = Vec::new();
    match old_root {
        Some(p) => {
            cmds.push(WatchCommand { kind: DirWatcherEvent::Remove, path: p.clone() });
            cmds.push(WatchCommand { kind: DirWatcherEvent::Add, path: new_root.clone() });
            proof {
                assert(cmds@.map_values(|c: WatchCommand| c.model()) =~= seq![
                    (DirWatcherEvent::Remove, p@),
                    (DirWatcherEvent::Add, new_root@),
                ]);
            }
        },
        None => {
            cmds.push(WatchCommand { kind: DirWatcherEvent::Add, path: new_root.clone() });
            proof {
                assert(cmds@.map_values(|c: WatchCommand| c.model()) =~= seq![
                    (DirWatcherEvent::Add, new_root@),
                ]);
            }
        },
    }
    cmds
}

/// The set of directory roots currently subscribed for recursive change
/// notification; owned by the watch worker, mutated only by the commands it
/// dequeues.
#[derive(Clone, Debug)]
pub struct WatchedSet {
    pub roots: Vec<String>,
}

impl WatchedSet {
    /// The roots as a set of paths.
    pub open spec fn as_set(self) -> Set<Seq<char>> {
        Set::new(|p: Seq<char>| exists|i: int| 0 <= i < self.roots@.len() && self.roots@[i]@ == p)
    }

    /// No root is held twice.
    pub open spec fn wf(self) -> bool {
        forall|i: int, j: int|
            0 <= i < j < self.roots@.len() ==> self.roots@[i]@ != self.roots@[j]@
    }

    /// The empty watched set of worker start.
    pub fn new() -> (w: WatchedSet)
        ensures
            w.wf(),
            w.as_set() == Set::<Seq<char>>::empty(),
    {
        let w = WatchedSet { roots: Vec::new() };
        proof {
            assert(w.as_set() =~= Set::<Seq<char>>::empty());
        }
        w
    }

    /// How many roots are watched.
    pub fn count(&self) -> (n: usize)
        ensures
            n == self.roots@.len(),
    {
        self.roots.len()
    }

    /// Whether `path` is currently watched.
    pub fn contains_path(&self, path: &str) -> (r: bool)
        ensures
            r == self.as_set().contains(path@),
    {
        let n = self.roots.len();
        let mut i: usize = 0;
        while i < n
            invariant
                n == self.roots@.len(),
                i <= n,
                forall|j: int| 0 <= j < i ==> self.roots@[j]@ != path@,
            decreases n - i,
        {
            if str_eq(self.roots[i].as_str(), path) {
                return true;
            }
            i = i + 1;
        }
        false
    }

    /// Services one dequeued command. Removing a root that is not watched is
    /// a no-op, swallowed; adding one already watched keeps the set as it is.
    pub fn apply(&mut self, cmd: &WatchCommand)
        requires
            old(self).wf(),
        ensures
            final(self).wf(),
            final(self).as_set() == apply_pair(old(self).as_set(), cmd.kind, cmd.path@),
    {
        let ghost pre = *self;
        match cmd.kind {
            DirWatcherEvent::Add => {
                if !self.contains_path(cmd.path.as_str()) {
                    self.roots.push(cmd.path.clone());
                    proof {
                        assert forall|a: int, b: int|
                            0 <= a < b < self.roots@.len() implies self.roots@[a]@
                            != self.roots@[b]@ by {
                            if b < pre.roots@.len() {
                                assert(pre.roots@[a]@ != pre.roots@[b]@);
                            } else {
                                assert(!pre.as_set().contains(self.roots@[b]@));
                            }
                        }
                        assert forall|p: Seq<char>|
                            self.as_set().contains(p) == apply_pair(
                                pre.as_set(),
                                cmd.kind,
                                cmd.path@,
                            ).contains(p) by {
                            if self.as_set().contains(p) {
                                let i = choose|i: int|
                                    0 <= i < self.roots@.len() && self.roots@[i]@ == p;
                                if i < pre.roots@.len() {
                                    assert(pre.as_set().contains(p));
                                }
                            }
                            if pre.as_set().contains(p) {
                                let i = choose|i: int|
                                    0 <= i < pre.roots@.len() && pre.roots@[i]@ == p;
                                assert(self.roots@[i]@ == p);
                            }
                            if p == cmd.path@ {
                                assert(self.roots@[self.roots@.len() - 1]@ == p);
                            }
                        }
                        assert(self.as_set() =~= apply_pair(pre.as_set(), cmd.kind, cmd.path@));
                    }
                } else {
                    proof {
                        assert(self.as_set() =~= apply_pair(pre.as_set(), cmd.kind, cmd.path@));
                    }
                }
            },
            DirWatcherEvent::Remove => {
                let n = self.roots.len();
                let mut i: usize = 0;
                while i < n
                    invariant
                        *self == pre,
                        pre == *old(self),
                        pre.wf(),
                        cmd.kind == DirWatcherEvent::Remove,
                        n == self.roots@.len(),
                        i <= n,
                        forall|j: int| 0 <= j < i ==> self.roots@[j]@ != cmd.path@,
                    decreases n - i,
                {
                    if str_eq(self.roots[i].as_str(), cmd.path.as_str()) {
                        proof {
                            assert(pre.roots@[i as int]@ == cmd.path@);
                        }
                        self.roots.remove(i);
                        proof {
                            let s = pre.roots@;
                            let t = self.roots@;
                            assert(t =~= s.subrange(0, i as int) + s.subrange(
                                i + 1,
                                s.len() as int,
                            ));
                            assert forall|a: int, b: int|
                                0 <= a < b < t.len() implies t[a]@ != t[b]@ by {
                                let a0 = if a < i { a } else { a + 1 };
                                let b0 = if b < i { b } else { b + 1 };
                                assert(t[a] == s[a0]);
                                assert(t[b] == s[b0]);
                                assert(s[a0]@ != s[b0]@);
                            }
                            assert forall|p: Seq<char>|
                                self.as_set().contains(p) == apply_pair(
                                    pre.as_set(),
                                    cmd.kind,
                                    cmd.path@,
                                ).contains(p) by {
                                if self.as_set().contains(p) {
                                    let k = choose|k: int| 0 <= k < t.len() && t[k]@ == p;
                                    let k0 = if k < i { k } else { k + 1 };
                                    assert(t[k] == s[k0]);
                                    assert(s[k0]@ == p);
                                    assert(pre.as_set().contains(p));
                                    if p == cmd.path@ {
                                        assert(s[k0]@ == s[i as int]@);
                                        if k0 < i {
                                            assert(s[k0]@ != s[i as int]@);
                                        } else {
                                            assert(s[i as int]@ != s[k0]@);
                                        }
                                        assert(false);
                                    }
                                }
                                if pre.as_set().contains(p) && p != cmd.path@ {
                                    let k0 = choose|k0: int| 0 <= k0 < s.len() && s[k0]@ == p;
                                    assert(k0 != i);
                                    let k = if k0 < i {
                                        k0
                                    } else {
                                        k0 - 1
                                    };
                                    assert(t[k] == s[k0]);
                                    assert(self.as_set().contains(p));
                                }
                            }
                            assert(self.as_set() =~= apply_pair(
                                pre.as_set(),
                                cmd.kind,
                                cmd.path@,
                            ));
                        }
                        return ;
                    }
                    i = i + 1;
                }
                proof {
                    assert(!pre.as_set().contains(cmd.path@));
                    assert(self.as_set() =~= apply_pair(pre.as_set(), cmd.kind, cmd.path@));
                }
            },
        }
    }
}

impl WatchedSet {
    /// Services one dequeued batch of commands, in order.
    pub fn apply_all(&mut self, cmds: &Vec<WatchCommand>)
        requires
            old(self).wf(),
        ensures
            final(self).wf(),
            final(self).as_set() == apply_pairs(
                old(self).as_set(),
                cmds@.map_values(|c: WatchCommand| c.model()),
            ),
    {
        let n = cmds.len();
        let mut i: usize = 0;
        while i < n
            invariant
                n == cmds@.len(),
                i <= n,
                self.wf(),
                self.as_set() == apply_pairs(
                    old(self).as_set(),
                    cmds@.subrange(0, i as int).map_values(|c: WatchCommand| c.model()),
                ),
            decreases n - i,
        {
            self.apply(&cmds[i]);
            proof {
                let models = cmds@.subrange(0, i + 1).map_values(|c: WatchCommand| c.model());
                assert(models.drop_last() =~= cmds@.subrange(0, i as int).map_values(
                    |c: WatchCommand| c.model(),
                ));
                assert(models.last() == cmds@[i as int].model());
            }
            i = i + 1;
        }
        proof {
            assert(cmds@.subrange(0, n as int) =~= cmds@);
        }
    }
}

/// Applying a concatenation of command queues is applying one after the
/// other.
pub proof fn lemma_apply_pairs_concat(
    w: Set<Seq<char>>,
    a: Seq<(DirWatcherEvent, Seq<char>)>,
    b: Seq<(DirWatcherEvent, Seq<char>)>,
)
    ensures
        apply_pairs(w, a + b) == apply_pairs(apply_pairs(w, a), b),
    decreases b.len(),
{
    if b.len() == 0 {
        assert(a + b =~= a);
    } else {
        assert((a + b).drop_last() =~= a + b.drop_last());
        lemma_apply_pairs_concat(w, a, b.drop_last());
        assert((a + b).last() == b.last());
    }
}

/// One reconciliation moves a watched set holding exactly the old root to one
/// holding exactly the new root.
pub proof fn lemma_reconcile_singleton(r0: Seq<char>, r1: Seq<char>)
    ensures
        apply_pairs(set![r0], reconcile_pairs(Some(r0), r1)) == set![r1],
{
    let cmds = reconcile_pairs(Some(r0), r1);
    reveal_with_fuel(apply_pairs, 3);
    assert(cmds.drop_last() =~= seq![(DirWatcherEvent::Remove, r0)]);
    assert(cmds.drop_last().drop_last() =~= Seq::<(DirWatcherEvent, Seq<char>)>::empty());
    assert(apply_pairs(set![r0], cmds.drop_last()) == set![r0].remove(r0));
    assert(apply_pairs(set![r0], cmds) == set![r0].remove(r0).insert(r1));
    assert(set![r0].remove(r0).insert(r1) =~= set![r1]);
}

/// The commands of a whole chain of settled navigations: each step unwatches
/// the previous root and watches the next.
pub open spec fn chain_pairs(start: Seq<char>, roots: Seq<Seq<char>>) -> Seq<
    (DirWatcherEvent, Seq<char>),
>
    decreases roots.len(),
{
    if roots.len() == 0 {
        Seq::empty()
    } else {
        let prev = if roots.len() == 1 {
            start
        } else {
            roots[roots.len() - 2]
        };
        chain_pairs(start, roots.drop_last()) + reconcile_pairs(Some(prev), roots.last())
    }
}

/// The watch invariant: after any chain of successful navigations from a
/// settled start, the watched set holds exactly one member, the last settled
/// root.
pub proof fn lemma_watch_chain(start: Seq<char>, roots: Seq<Seq<char>>)
    ensures
        apply_pairs(set![start], chain_pairs(start, roots)) == (if roots.len() == 0 {
            set![start]
        } else {
            set![roots.last()]
        }),
    decreases roots.len(),
{
    if roots.len() > 0 {
        let prev = if roots.len() == 1 {
            start
        } else {
            roots[roots.len() - 2]
        };
        lemma_watch_chain(start, roots.drop_last());
        lemma_apply_pairs_concat(
            set![start],
            chain_pairs(start, roots.drop_last()),
            reconcile_pairs(Some(prev), roots.last()),
        );
        if roots.len() > 1 {
            assert(roots.drop_last().last() == prev);
        }
        lemma_reconcile_singleton(prev, roots.last());
    }
}

} // verus!
