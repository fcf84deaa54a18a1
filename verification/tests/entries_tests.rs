use themis::entries::{build_local, build_recursive, ChildInfo};
use themis::index::{IndexEntry, IndexStore};
use themis::search::Matcher;
use themis::settings::SearchMode;

fn child(name: &str, is_dir: bool, is_empty: bool) -> ChildInfo {
    ChildInfo { name: name.to_owned(), is_dir, is_empty }
}

fn entry(path: &str, size: u64) -> IndexEntry {
    IndexEntry { path: path.to_owned(), real_size: size }
}

#[test]
fn local_listing_completes_children_in_enumeration_order() {
    let mut store = IndexStore::new();
    store.install(vec![entry("/data/a.txt", 10)]);
    let m = Matcher::compile("", SearchMode::Contains, false, false);
    let children = vec![child("a.txt", false, false), child("sub", true, true)];
    let r = build_local("/data", &store, &m, &children);
    assert_eq!(r.len(), 2);
    assert_eq!(r[0].path, "/data/a.txt");
    assert_eq!(r[0].name, "a.txt");
    assert_eq!(r[0].size, 10);
    assert!(!r[0].is_dir);
    assert!(!r[0].is_empty);
    assert_eq!(r[1].path, "/data/sub");
    assert_eq!(r[1].name, "sub");
    assert_eq!(r[1].size, 0);
    assert!(r[1].is_dir);
    assert!(r[1].is_empty);
}

#[test]
fn local_listing_filters_by_the_matcher() {
    let store = IndexStore::new();
    let m = Matcher::compile("log", SearchMode::Contains, false, false);
    let children = vec![child("x.log", false, false), child("a.txt", false, false), child(
        "logbook",
        true,
        false,
    )];
    let r = build_local("/data", &store, &m, &children);
    assert_eq!(r.len(), 2);
    assert_eq!(r[0].name, "x.log");
    assert_eq!(r[1].name, "logbook");
}

#[test]
fn recursive_glob_finds_descendants_at_any_depth() {
    let mut store = IndexStore::new();
    store.install(vec![
        entry("/data/x.log", 3),
        entry("/data/sub/y.log", 4),
        entry("/data/z.txt", 5),
        entry("/elsewhere/w.log", 6),
    ]);
    let m = Matcher::compile("*.log", SearchMode::Glob, false, false);
    let r = build_recursive("/data", &store, &m);
    assert_eq!(r.len(), 2);
    assert_eq!(r[0].path, "/data/x.log");
    assert_eq!(r[0].name, "x.log");
    assert_eq!(r[0].size, 3);
    assert_eq!(r[1].path, "/data/sub/y.log");
    assert_eq!(r[1].name, "y.log");
    assert_eq!(r[1].size, 4);
}

#[test]
fn recursive_scope_yields_nothing_before_the_index_arrives() {
    let store = IndexStore::new();
    let m = Matcher::compile("*.log", SearchMode::Glob, false, false);
    let r = build_recursive("/data", &store, &m);
    assert_eq!(r.len(), 0);
}

#[test]
fn recursive_strict_matches_the_exact_trailing_name() {
    let mut store = IndexStore::new();
    store.install(vec![entry("/data/y.log", 1), entry("/data/sub/y.log", 2), entry(
        "/data/xy.log",
        3,
    )]);
    let m = Matcher::compile("y.log", SearchMode::Contains, true, true);
    let r = build_recursive("/data", &store, &m);
    assert_eq!(r.len(), 2);
    assert_eq!(r[0].path, "/data/y.log");
    assert_eq!(r[1].path, "/data/sub/y.log");
}
