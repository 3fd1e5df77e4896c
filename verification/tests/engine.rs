use std::collections::HashMap;

use anixrun::index::IndexRecord;
use anixrun::query::normalize_query;
use anixrun::search::project_one;
use anixrun::search::SearchError;
use anixrun::{Config, MatchData, SearchBackend, State};

fn record(name: &str, attr: &str, hash: &str, path: &[u8]) -> IndexRecord {
    IndexRecord {
        package_name: name.to_string(),
        package_attr: attr.to_string(),
        package_hash: hash.to_string(),
        path: path.to_vec(),
    }
}

#[test]
fn project_one_builds_display_match_and_stores_record() {
    let mut store: HashMap<u64, MatchData> = HashMap::new();
    let rec = record("pkg-foo", "foo", "abcdefgh", b"/bin/foo");
    let m = project_one(rec, &mut store);
    assert_eq!(m.title.as_str(), "foo");
    assert_eq!(
        m.description.as_deref(),
        Some("Run <big>/bin/foo</big> from <big>pkg-foo</big> package")
    );
    assert!(m.use_pango);
    assert!(m.icon.is_none());
    let id = m.id.expect("a projected match carries an identifier");
    let data = store.get(&id).expect("the correlation record was stored");
    assert_eq!(data.package.as_str(), "pkg-foo");
    assert_eq!(data.package_noversion.as_str(), "foo");
    assert_eq!(data.binary_path.as_str(), "/bin/foo");
    assert_eq!(data.binary_name.as_str(), "foo");
}

#[test]
fn identifiers_are_deterministic_and_overwrite() {
    let mut store: HashMap<u64, MatchData> = HashMap::new();
    let m1 = project_one(record("pkg-foo", "foo", "samehash", b"/bin/foo"), &mut store);
    let m2 = project_one(record("pkg-foo", "foo", "samehash", b"/bin/foo"), &mut store);
    assert_eq!(m1.id, m2.id);
    assert_eq!(store.len(), 1);
    let m3 = project_one(record("pkg-bar", "bar", "otherhash", b"/bin/bar"), &mut store);
    assert_ne!(m1.id, m3.id);
    assert_eq!(store.len(), 2);
}

#[test]
fn binary_name_is_last_segment() {
    let mut store: HashMap<u64, MatchData> = HashMap::new();
    let m = project_one(
        record("pkg", "attr", "h1", b"/libexec/tools/bin/runner"),
        &mut store,
    );
    let data = store.get(&m.id.unwrap()).unwrap();
    assert_eq!(data.binary_name.as_str(), "runner");
    assert_eq!(data.binary_path.as_str(), "/libexec/tools/bin/runner");
}

#[test]
fn state_starts_empty_and_lookup_misses() {
    let state = State::new(Config::default_with_home("/home/u"));
    assert!(state.lookup(42).is_none());
}

#[test]
fn default_config_values() {
    let c = Config::default_with_home("/home/u");
    assert_eq!(c.prefix.as_str(), ":nix");
    assert_eq!(c.max_entries, 3);
    assert!(!c.exact_match);
    assert_eq!(c.index_database_path.as_str(), "/home/u/.cache/nix-index/files");
    assert_eq!(c.backend, SearchBackend::Offline);
}

#[test]
fn launch_command_runs_the_binary_from_its_package() {
    let mut store: HashMap<u64, MatchData> = HashMap::new();
    let m = project_one(record("pkg-foo", "foo", "abcdefgh", b"/bin/foo"), &mut store);
    let data = store.get(&m.id.unwrap()).unwrap();
    let (program, args) = data.launch_command();
    assert_eq!(program.as_str(), "nix-shell");
    assert_eq!(args.len(), 4);
    assert_eq!(args[0], "-p");
    assert_eq!(args[1], "foo");
    assert_eq!(args[2], "--run");
    assert_eq!(args[3], "foo");
}

#[test]
fn normalize_query_strips_prefix_and_trims() {
    assert_eq!(normalize_query(":nix  foo  ", ":nix").as_deref(), Some("foo"));
    assert_eq!(normalize_query(":nixfoo", ":nix").as_deref(), Some("foo"));
    assert_eq!(normalize_query(":nix \t \n ", ":nix"), None);
    assert_eq!(normalize_query(":nix", ":nix"), None);
    assert_eq!(normalize_query("foo", ":nix"), None);
    assert_eq!(normalize_query(":ni", ":nix"), None);
    assert_eq!(normalize_query(":nix a b", ":nix").as_deref(), Some("a b"));
}

#[test]
fn error_texts_name_their_inputs() {
    let e = SearchError::IndexOpen { database: "/some/missing/index".to_string() };
    assert_eq!(e.description().as_str(), "Database read error");
    assert_eq!(
        e.details().as_str(),
        "Reading from the database at '/some/missing/index' failed.\nThis may be caused by a corrupt or missing database, try (re)running `nix-index` to generate the database."
    );
    let e = SearchError::Pattern { pattern: "^/bin/x$".to_string() };
    assert_eq!(e.description().as_str(), "Regex builder error");
    assert_eq!(
        e.details().as_str(),
        "Constructing the regular expression from the pattern '^/bin/x$' failed."
    );
    let e = SearchError::IndexQuery { pattern: "/bin/x".to_string() };
    assert_eq!(e.description().as_str(), "Database query error");
    assert_eq!(
        e.details().as_str(),
        "Running the index scan for the pattern '/bin/x' failed."
    );
}
