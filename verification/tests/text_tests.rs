use themis::text::{str_contains, str_eq, str_starts_with};

#[test]
fn equality_is_by_characters() {
    assert!(str_eq("abc", "abc"));
    assert!(!str_eq("abc", "abd"));
    assert!(!str_eq("abc", "ab"));
    assert!(str_eq("", ""));
}

#[test]
fn prefix_test() {
    assert!(str_starts_with("/data/a.txt", "/data"));
    assert!(str_starts_with("/data", "/data"));
    assert!(!str_starts_with("/dat", "/data"));
    assert!(str_starts_with("anything", ""));
}

#[test]
fn substring_test() {
    assert!(str_contains("logbook", "book"));
    assert!(str_contains("logbook", ""));
    assert!(!str_contains("logbook", "books"));
    assert!(!str_contains("", "a"));
    assert!(str_contains("aaab", "aab"));
}
