use themis::index::{IndexEntry, IndexStore};

fn entry(path: &str, size: u64) -> IndexEntry {
    IndexEntry { path: path.to_owned(), real_size: size }
}

#[test]
fn lookup_absent_is_zero() {
    let store = IndexStore::new();
    assert_eq!(store.lookup("/does/not/exist"), 0);
}

#[test]
fn lookup_is_zero_while_scan_in_flight() {
    let store = IndexStore::new();
    assert!(!store.populated);
    assert_eq!(store.lookup("/data/a.txt"), 0);
}

#[test]
fn lookup_finds_installed_sizes() {
    let mut store = IndexStore::new();
    store.install(vec![entry("/data/a.txt", 10), entry("/data/sub/y.log", 7)]);
    assert!(store.populated);
    assert_eq!(store.lookup("/data/a.txt"), 10);
    assert_eq!(store.lookup("/data/sub/y.log"), 7);
    assert_eq!(store.lookup("/data/other"), 0);
}

#[test]
fn len_and_record_at_follow_install_order() {
    let mut store = IndexStore::new();
    store.install(vec![entry("/a", 1), entry("/b", 2)]);
    assert_eq!(store.len(), 2);
    assert_eq!(store.record_at(0).path, "/a");
    assert_eq!(store.record_at(1).real_size, 2);
}
