use eg_gui::events::{socket_step, stays_open, Received, SocketAction, WsEvent};
use eg_gui::retrieve::{role_links, Role};
use eg_gui::watch::{corpus_event, diff, relevant, CorpusChange, Debounce, Mtime, SnapshotEntry};

fn at(hash: &str, secs: Option<u64>) -> SnapshotEntry {
    SnapshotEntry { hash: hash.to_string(), mtime: secs.map(|s| Mtime { secs: s, nanos: 0 }) }
}

fn sorted(mut v: Vec<String>) -> Vec<String> {
    v.sort();
    v
}

#[test]
fn diff_finds_added_removed_and_rewritten() {
    let current = vec![at("a", Some(1)), at("b", Some(2)), at("c", None), at("d", Some(4))];
    let fresh = vec![at("b", Some(2)), at("c", Some(3)), at("d", Some(5)), at("e", Some(1))];
    let change = diff(&current, &fresh);
    assert_eq!(sorted(change.added), vec!["e"]);
    assert_eq!(sorted(change.removed), vec!["a"]);
    assert_eq!(sorted(change.changed), vec!["c", "d"]);
}

#[test]
fn an_unchanged_corpus_changes_nothing() {
    let s = vec![at("a", Some(1)), at("b", None)];
    let change = diff(&s, &s);
    assert!(change.added.is_empty() && change.removed.is_empty() && change.changed.is_empty());
    let workbooks = Vec::new();
    assert!(corpus_event(change, workbooks).is_none());
}

#[test]
fn a_change_is_announced() {
    let change = diff(&Vec::new(), &vec![at("n", Some(9))]);
    match corpus_event(change, Vec::new()) {
        Some(WsEvent::Corpus { added, removed, changed, workbooks }) => {
            assert_eq!(added, vec!["n"]);
            assert!(removed.is_empty() && changed.is_empty() && workbooks.is_empty());
        }
        _ => panic!("expected a corpus event"),
    }
    let only_removed = CorpusChange { added: Vec::new(), removed: vec!["x".to_string()], changed: Vec::new() };
    assert!(corpus_event(only_removed, Vec::new()).is_some());
}

#[test]
fn only_json_writes_are_relevant() {
    let p = |s: &[&str]| s.iter().map(|x| x.to_string()).collect::<Vec<_>>();
    assert!(relevant(false, &p(&["/c/corpus.json"])));
    assert!(relevant(false, &p(&["/c/lock", "/c/graphs/ab.json"])));
    assert!(!relevant(true, &p(&["/c/corpus.json"])));
    assert!(!relevant(false, &p(&["/c/corpus.json.tmp", "/c/index/meta.lock"])));
    assert!(!relevant(false, &p(&["/c/.json"])));
    assert!(!relevant(false, &p(&["/c/json"])));
    assert!(relevant(false, &p(&["/c/..json"])));
    assert!(!relevant(false, &p(&["/c/graph.json/.."])));
    assert!(!relevant(false, &p(&[])));
}

#[test]
fn notices_are_debounced() {
    let mut d = Debounce::new();
    assert!(!d.armed());
    assert!(!d.notice(false));
    assert!(!d.armed());
    assert!(d.notice(true));
    assert!(d.armed());
    assert!(!d.notice(false));
    assert!(d.armed());
    d.quiet();
    assert!(!d.armed());
}

#[test]
fn a_lagging_socket_is_told_and_kept() {
    assert!(matches!(socket_step(&Received::Event), SocketAction::Forward));
    assert!(matches!(
        socket_step(&Received::Lagged { skipped: 7 }),
        SocketAction::ReportLagged { skipped: 7 }
    ));
    assert!(matches!(socket_step(&Received::Closed), SocketAction::Close));
    assert!(matches!(socket_step(&Received::ClientGone), SocketAction::Close));
    assert!(stays_open(&SocketAction::Forward, true));
    assert!(!stays_open(&SocketAction::Forward, false));
    assert!(stays_open(&SocketAction::ReportLagged { skipped: 1 }, false));
    assert!(!stays_open(&SocketAction::Close, true));
}

#[test]
fn roles_link_to_what_they_are_relative_to() {
    let l = role_links(&Role::Seed);
    assert!(l.via.is_none() && l.edge_kind.is_none() && l.weight.is_none());
    let l = role_links(&Role::Ancestor { of: 3 });
    assert_eq!((l.via, l.edge_kind, l.weight), (Some(3), None, None));
    let l = role_links(&Role::Child { of: 4 });
    assert_eq!((l.via, l.edge_kind, l.weight), (Some(4), None, None));
    let l = role_links(&Role::Input { of: 5, kind: "refs".to_string(), weight: 9 });
    assert_eq!((l.via, l.edge_kind.as_deref(), l.weight), (Some(5), Some("refs"), Some(9)));
    let l = role_links(&Role::Dependent { on: 6, kind: "refs".to_string(), weight: 2 });
    assert_eq!((l.via, l.edge_kind.as_deref(), l.weight), (Some(6), Some("refs"), Some(2)));
}

#[test]
fn an_empty_change_says_so() {
    let s = vec![at("a", Some(1))];
    assert!(diff(&s, &s).is_empty());
    assert!(!diff(&s, &Vec::new()).is_empty());
}
