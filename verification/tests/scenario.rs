use std::collections::HashMap;

use nix_index::database::Writer;
use nix_index::files::FileTree;
use nix_index::package::{PathOrigin, StorePath};
use serde_bytes::ByteBuf;

use anixrun::search::{dispatch, search, DispatchOutcome};
use anixrun::{Config, SearchBackend, State};

fn tree_with_binaries(names: &[&str]) -> FileTree {
    let mut bin = HashMap::new();
    for n in names {
        bin.insert(ByteBuf::from(n.as_bytes().to_vec()), FileTree::regular(10, true));
    }
    let mut root = HashMap::new();
    root.insert(ByteBuf::from(b"bin".to_vec()), FileTree::directory(bin));
    FileTree::directory(root)
}

fn add_package(w: &mut Writer, hash: &str, pkg: &str, attr: &str, binaries: &[&str]) {
    let origin = PathOrigin {
        attr: attr.to_string(),
        output: "out".to_string(),
        toplevel: true,
        system: None,
    };
    let store_path = format!("/nix/store/{}-{}", hash, pkg);
    let sp = StorePath::parse(origin, &store_path).expect("store path parses");
    w.add(sp, tree_with_binaries(binaries), b"").expect("add package");
}

fn write_foo_index(path: &str) {
    let mut w = Writer::create(path, 1).expect("create index");
    add_package(&mut w, "aaaaaaaaaaaaaaaaaaaaaaaaaaaaaaaa", "pkg-foo", "foo", &["foo"]);
    add_package(&mut w, "bbbbbbbbbbbbbbbbbbbbbbbbbbbbbbbb", "pkg-foobar", "foobar", &["foobar"]);
    w.finish().expect("finish index");
}

fn config_for(path: &str, exact: bool, cap: usize) -> Config {
    Config {
        prefix: ":nix".to_string(),
        max_entries: cap,
        exact_match: exact,
        index_database_path: path.to_string(),
        backend: SearchBackend::Offline,
    }
}

#[test]
fn exact_query_finds_only_the_exact_binary() {
    let path = "/tmp/anixrun_index_exact";
    write_foo_index(path);
    let mut state = State::new(config_for(path, true, 5));
    let ms = search(&"foo".to_string(), &mut state).expect("search succeeds");
    assert_eq!(ms.len(), 1);
    assert_eq!(ms[0].title.as_str(), "foo");
}

#[test]
fn substring_query_finds_both_binaries() {
    let path = "/tmp/anixrun_index_substring";
    write_foo_index(path);
    let mut state = State::new(config_for(path, false, 5));
    let ms = search(&"foo".to_string(), &mut state).expect("search succeeds");
    assert_eq!(ms.len(), 2);
    let mut titles: Vec<&str> = ms.iter().map(|m| m.title.as_str()).collect();
    titles.sort();
    assert_eq!(titles, vec!["foo", "foobar"]);
}

#[test]
fn cap_limits_the_result_count() {
    let path = "/tmp/anixrun_index_cap";
    write_foo_index(path);
    let mut state = State::new(config_for(path, false, 1));
    let ms = search(&"foo".to_string(), &mut state).expect("search succeeds");
    assert_eq!(ms.len(), 1);

    let mut state = State::new(config_for(path, false, 0));
    let ms = search(&"foo".to_string(), &mut state).expect("search succeeds");
    assert_eq!(ms.len(), 0);
}

#[test]
fn lookup_after_search_matches_description() {
    let path = "/tmp/anixrun_index_lookup";
    write_foo_index(path);
    let mut state = State::new(config_for(path, false, 5));
    let ms = search(&"foo".to_string(), &mut state).expect("search succeeds");
    assert!(!ms.is_empty());
    for m in &ms {
        let id = m.id.expect("every projected match carries an identifier");
        let data = state.lookup(id).expect("lookup succeeds right after the search");
        let expected = format!(
            "Run <big>{}</big> from <big>{}</big> package",
            data.binary_path, data.package
        );
        assert_eq!(m.description.as_deref(), Some(expected.as_str()));
    }
}

#[test]
fn repeated_search_overwrites_without_duplicating() {
    let path = "/tmp/anixrun_index_repeat";
    write_foo_index(path);
    let mut state = State::new(config_for(path, false, 5));
    let first = search(&"foo".to_string(), &mut state).expect("first search");
    let count_after_first = state.match_data.len();
    let second = search(&"foo".to_string(), &mut state).expect("second search");
    assert_eq!(state.match_data.len(), count_after_first);
    let mut ids1: Vec<u64> = first.iter().map(|m| m.id.unwrap()).collect();
    let mut ids2: Vec<u64> = second.iter().map(|m| m.id.unwrap()).collect();
    ids1.sort();
    ids2.sort();
    assert_eq!(ids1, ids2);
}

#[test]
fn open_failure_becomes_one_informational_match() {
    let path = "/tmp/anixrun_no_such_index";
    let mut state = State::new(config_for(path, false, 5));
    match dispatch(&"foo".to_string(), &mut state) {
        DispatchOutcome::Matches(ms) => {
            assert_eq!(ms.len(), 1);
            assert_eq!(ms[0].title.as_str(), "Database read error");
            let description = ms[0].description.as_deref().expect("has a description");
            assert!(description.contains("/tmp/anixrun_no_such_index"));
            assert!(ms[0].id.is_none());
        }
        DispatchOutcome::OnlineQuery(_) => panic!("offline backend was configured"),
    }
}

#[test]
fn online_backend_hands_the_query_back() {
    let mut config = config_for("/tmp/anixrun_unused", false, 5);
    config.backend = SearchBackend::Online;
    let mut state = State::new(config);
    match dispatch(&"ripgrep".to_string(), &mut state) {
        DispatchOutcome::OnlineQuery(q) => assert_eq!(q.as_str(), "ripgrep"),
        DispatchOutcome::Matches(_) => panic!("online backend was configured"),
    }
}
