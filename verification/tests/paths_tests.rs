use themis::paths::{file_name_of, join_path, renamed_path, segment_start};

#[test]
fn join_inserts_a_separator() {
    assert_eq!(join_path("/data", "a.txt"), "/data/a.txt");
}

#[test]
fn join_keeps_a_trailing_separator() {
    assert_eq!(join_path("/data/", "a.txt"), "/data/a.txt");
    assert_eq!(join_path("/", "a.txt"), "/a.txt");
}

#[test]
fn join_of_empty_directory_is_rooted() {
    assert_eq!(join_path("", "a.txt"), "/a.txt");
}

#[test]
fn file_name_is_the_trailing_segment() {
    assert_eq!(file_name_of("/data/sub/y.log"), "y.log");
    assert_eq!(file_name_of("plain"), "plain");
    assert_eq!(file_name_of("/data/"), "");
}

#[test]
fn segment_start_points_after_the_last_separator() {
    assert_eq!(segment_start("/data/sub/y.log"), 10);
    assert_eq!(segment_start("plain"), 0);
}

#[test]
fn rename_replaces_the_trailing_segment() {
    assert_eq!(renamed_path("/data/old.txt", "new.txt"), "/data/new.txt");
    assert_eq!(renamed_path("bare", "fresh"), "fresh");
}
