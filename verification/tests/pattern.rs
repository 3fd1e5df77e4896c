use anixrun::pattern::build_pattern;

#[test]
fn exact_pattern_is_anchored() {
    let p = build_pattern("foo", true);
    assert_eq!(p.as_str(), "^/bin/foo$");
}

#[test]
fn substring_pattern_is_prefix_only() {
    let p = build_pattern("foo", false);
    assert_eq!(p.as_str(), "/bin/foo");
}

#[test]
fn meta_characters_are_escaped() {
    let p = build_pattern("a.b+c", false);
    assert_eq!(p.as_str(), "/bin/a\\.b\\+c");
}

#[test]
fn plus_signs_are_escaped_in_exact_mode() {
    let p = build_pattern("g++", true);
    assert_eq!(p.as_str(), "^/bin/g\\+\\+$");
}

#[test]
fn all_meta_characters_round_trip() {
    let p = build_pattern("\\.+*?()|[]{}^$#&-~", false);
    assert_eq!(
        p.as_str(),
        "/bin/\\\\\\.\\+\\*\\?\\(\\)\\|\\[\\]\\{\\}\\^\\$\\#\\&\\-\\~"
    );
}

#[test]
fn escaped_pattern_matches_literally() {
    // The compiled pattern must treat the query literally: "a.b" matches
    // the path containing "a.b" but not the one containing "axb".
    let p = build_pattern("a.b", false);
    let re = regex::bytes::Regex::new(p.as_str()).unwrap();
    assert!(re.is_match(b"/bin/a.b"));
    assert!(!re.is_match(b"/bin/axb"));
}

#[test]
fn exact_pattern_matches_whole_path_only() {
    let p = build_pattern("foo", true);
    let re = regex::bytes::Regex::new(p.as_str()).unwrap();
    assert!(re.is_match(b"/bin/foo"));
    assert!(!re.is_match(b"/bin/foobar"));
    assert!(!re.is_match(b"/usr/bin/foo"));
}
