use themis::search::Matcher;
use themis::settings::SearchMode;

#[test]
fn contains_empty_query_matches_every_candidate() {
    let m = Matcher::compile("", SearchMode::Contains, false, false);
    assert!(m.matches("a.txt"));
    assert!(m.matches(""));
    assert!(m.matches("anything at all"));
}

#[test]
fn contains_strict_matches_only_the_exact_name() {
    let m = Matcher::compile("a.txt", SearchMode::Contains, true, true);
    assert!(m.matches("a.txt"));
    assert!(!m.matches("xa.txt"));
    assert!(!m.matches("a.txtx"));
    assert!(!m.matches("a.tx"));
}

#[test]
fn contains_default_matches_substrings() {
    let m = Matcher::compile("log", SearchMode::Contains, true, false);
    assert!(m.matches("x.log"));
    assert!(m.matches("logbook"));
    assert!(!m.matches("x.txt"));
}

#[test]
fn case_insensitive_query_matches_other_case() {
    let m = Matcher::compile("ABC", SearchMode::Contains, false, false);
    assert!(m.matches("abc"));
    let strict = Matcher::compile("ABC", SearchMode::Contains, false, true);
    assert!(strict.matches("abc"));
}

#[test]
fn case_sensitive_query_does_not_match_other_case() {
    let m = Matcher::compile("ABC", SearchMode::Contains, true, false);
    assert!(!m.matches("abc"));
    assert!(m.matches("ABC"));
}

#[test]
fn glob_mode_matches_shell_patterns() {
    let m = Matcher::compile("*.log", SearchMode::Glob, true, false);
    assert!(m.matches("x.log"));
    assert!(!m.matches("x.txt"));
}

#[test]
fn glob_mode_folds_case_when_insensitive() {
    let m = Matcher::compile("*.LOG", SearchMode::Glob, false, false);
    assert!(m.matches("X.log"));
    let sensitive = Matcher::compile("*.LOG", SearchMode::Glob, true, false);
    assert!(!sensitive.matches("x.log"));
}

#[test]
fn invalid_glob_matches_nothing() {
    let m = Matcher::compile("[", SearchMode::Glob, true, false);
    assert!(!m.matches("["));
    assert!(!m.matches("anything"));
}

#[test]
fn regex_mode_matches_substrings_by_default() {
    let m = Matcher::compile("a.txt", SearchMode::Regex, true, false);
    assert!(m.matches("a.txt"));
    assert!(m.matches("xa.txtx"));
    assert!(!m.matches("b.log"));
}

#[test]
fn regex_strict_anchors_to_the_whole_name() {
    let m = Matcher::compile("a.txt", SearchMode::Regex, true, true);
    assert!(m.matches("a.txt"));
    assert!(!m.matches("xa.txt"));
    assert!(!m.matches("a.txtx"));
}

#[test]
fn invalid_regex_matches_nothing() {
    let m = Matcher::compile("(", SearchMode::Regex, true, false);
    assert!(!m.matches("("));
    assert!(!m.matches("anything"));
}
