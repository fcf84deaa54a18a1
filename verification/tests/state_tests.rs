use themis::entries::{ChildInfo, DirEntry};
use themis::index::IndexEntry;
use themis::settings::{SearchMode, SearchSettings};
use themis::state::Themis;
use themis::watch::{ChangeEvent, ChangeKind, DirWatcherEvent, WatchCommand, WatchedSet};

fn child(name: &str, is_dir: bool, is_empty: bool) -> ChildInfo {
    ChildInfo { name: name.to_owned(), is_dir, is_empty }
}

fn entry(path: &str, size: u64) -> IndexEntry {
    IndexEntry { path: path.to_owned(), real_size: size }
}

fn snapshot(entries: &[DirEntry]) -> Vec<(String, String, u64, bool, bool)> {
    entries
        .iter()
        .map(|e| (e.path.clone(), e.name.clone(), e.size, e.is_dir, e.is_empty))
        .collect()
}

#[test]
fn repeated_ticks_with_no_external_change_keep_the_entry_list() {
    let mut s = Themis::new("/data".to_owned());
    let children = vec![child("a.txt", false, false), child("sub", true, true)];
    s.set_search(String::new());
    let cmds = s.tick(None, None, Some(children.clone()));
    assert!(cmds.is_empty());
    let first = snapshot(&s.dir_entries);
    assert_eq!(first.len(), 2);
    let cmds = s.tick(None, None, Some(children.clone()));
    assert!(cmds.is_empty());
    assert_eq!(snapshot(&s.dir_entries), first);
    let cmds = s.tick(None, None, Some(children));
    assert!(cmds.is_empty());
    assert_eq!(snapshot(&s.dir_entries), first);
}

#[test]
fn failed_navigation_reverts_and_keeps_the_entry_list() {
    let mut s = Themis::new("/data".to_owned());
    s.set_search(String::new());
    let _ = s.tick(None, None, Some(vec![child("a.txt", false, false)]));
    let before = snapshot(&s.dir_entries);
    s.navigate("/does/not/exist".to_owned());
    let cmds = s.tick(None, None, None);
    assert!(cmds.is_empty());
    assert_eq!(s.current_path, "/data");
    assert_eq!(s.last_path, "/data");
    assert_eq!(snapshot(&s.dir_entries), before);
}

#[test]
fn settled_navigation_moves_the_state_and_emits_both_commands() {
    let mut s = Themis::new("/data".to_owned());
    s.navigate("/data/sub".to_owned());
    let cmds = s.tick(None, None, Some(vec![]));
    assert_eq!(s.current_path, "/data/sub");
    assert_eq!(s.last_path, "/data/sub");
    assert_eq!(s.navigation, "/data/sub");
    assert_eq!(cmds.len(), 2);
    assert!(matches!(cmds[0].kind, DirWatcherEvent::Remove));
    assert_eq!(cmds[0].path, "/data");
    assert!(matches!(cmds[1].kind, DirWatcherEvent::Add));
    assert_eq!(cmds[1].path, "/data/sub");
}

#[test]
fn watched_set_holds_exactly_the_current_root_after_navigations() {
    let mut s = Themis::new("/start".to_owned());
    let mut w = WatchedSet::new();
    w.apply(&WatchCommand { kind: DirWatcherEvent::Add, path: "/start".to_owned() });
    for root in ["/a", "/b", "/c", "/b"] {
        s.navigate(root.to_owned());
        let cmds = s.tick(None, None, Some(vec![]));
        w.apply_all(&cmds);
        assert_eq!(w.count(), 1);
        assert!(w.contains_path(&s.current_path));
    }
}

#[test]
fn the_scan_result_is_consumed_once_and_refreshes_sizes() {
    let mut s = Themis::new("/data".to_owned());
    let children = vec![child("a.txt", false, false)];
    let cmds = s.tick(Some(vec![entry("/data/a.txt", 10)]), None, Some(children.clone()));
    assert!(cmds.is_empty());
    assert_eq!(snapshot(&s.dir_entries), vec![(
        "/data/a.txt".to_owned(),
        "a.txt".to_owned(),
        10,
        false,
        false,
    )]);
    let _ = s.tick(Some(vec![entry("/data/a.txt", 99)]), None, Some(children));
    assert_eq!(s.index.lookup("/data/a.txt"), 10);
}

#[test]
fn a_change_event_triggers_a_rebuild() {
    let mut s = Themis::new("/data".to_owned());
    let ev = ChangeEvent { kind: ChangeKind::Created, paths: vec!["/data/new".to_owned()] };
    let _ = s.tick(None, Some(ev), Some(vec![child("new", true, true)]));
    assert_eq!(s.dir_entries.len(), 1);
    assert_eq!(s.dir_entries[0].name, "new");
}

#[test]
fn an_uninteresting_event_does_not_rebuild() {
    let mut s = Themis::new("/data".to_owned());
    let ev = ChangeEvent { kind: ChangeKind::Other, paths: vec![] };
    let _ = s.tick(None, Some(ev), Some(vec![child("new", true, true)]));
    assert_eq!(s.dir_entries.len(), 0);
}

#[test]
fn a_search_change_rebuilds_with_the_filter() {
    let mut s = Themis::new("/data".to_owned());
    let children = vec![
        child("x.log", false, false),
        child("a.txt", false, false),
        child("z.log", false, false),
    ];
    s.set_search("log".to_owned());
    s.set_search_settings(SearchSettings {
        mode: SearchMode::Contains,
        sensitive: false,
        recursive: false,
        strict: false,
    });
    let _ = s.tick(None, None, Some(children));
    assert_eq!(s.dir_entries.len(), 2);
    assert_eq!(s.dir_entries[0].name, "x.log");
    assert_eq!(s.dir_entries[1].name, "z.log");
}

#[test]
fn a_recursive_search_draws_candidates_from_the_index() {
    let mut s = Themis::new("/data".to_owned());
    let _ = s.tick(
        Some(vec![entry("/data/x.log", 3), entry("/data/sub/y.log", 4), entry("/other/z.log", 5)]),
        None,
        Some(vec![]),
    );
    s.set_search("*.log".to_owned());
    s.set_search_settings(SearchSettings {
        mode: SearchMode::Glob,
        sensitive: false,
        recursive: true,
        strict: false,
    });
    let _ = s.tick(None, None, Some(vec![]));
    assert_eq!(s.dir_entries.len(), 2);
    assert_eq!(s.dir_entries[0].path, "/data/x.log");
    assert_eq!(s.dir_entries[1].path, "/data/sub/y.log");
}

#[test]
fn pinning_twice_keeps_one_pin() {
    let mut s = Themis::new("/data".to_owned());
    s.pin("/data".to_owned());
    s.pin("/data".to_owned());
    assert_eq!(s.pinned_dirs.len(), 1);
    s.pin("/other".to_owned());
    assert_eq!(s.pinned_dirs.len(), 2);
}

#[test]
fn unpinning_removes_the_pin_and_keeps_the_rest() {
    let mut s = Themis::new("/data".to_owned());
    s.pin("/a".to_owned());
    s.pin("/b".to_owned());
    s.pin("/c".to_owned());
    s.unpin("/b");
    assert_eq!(s.pinned_dirs, vec!["/a".to_owned(), "/c".to_owned()]);
    s.unpin("/missing");
    assert_eq!(s.pinned_dirs.len(), 2);
}
