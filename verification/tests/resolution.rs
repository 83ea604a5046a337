use readlinks::{resolve, parse_path, FindOutcome, FsEntry, FsTable, HopSearch, Probe, SymlinkPath};

fn table(rows: &[(&str, FsEntry)]) -> FsTable {
    let mut fs = FsTable::new();
    for (path, entry) in rows {
        let entry = match entry {
            FsEntry::File => FsEntry::File,
            FsEntry::Dir => FsEntry::Dir,
            FsEntry::Link(t) => FsEntry::Link(t.dup()),
            FsEntry::Denied => FsEntry::Denied,
        };
        fs.add(parse_path(path), entry);
    }
    fs
}

#[test]
fn single_link_without_suffix() {
    let fs = table(&[
        ("/", FsEntry::Dir),
        ("/l", FsEntry::Link(parse_path("/t"))),
        ("/t", FsEntry::File),
    ]);
    let mut it = resolve(parse_path("/l"));
    match it.next_in(&fs).unwrap().unwrap() {
        SymlinkPath::Symlink { source, target, suffix } => {
            assert_eq!(source.render(), "/l");
            assert_eq!(target.render(), "/t");
            assert_eq!(suffix.render(), "");
        }
        SymlinkPath::NotLink(_) => panic!("expected a link hop"),
    }
    match it.next_in(&fs).unwrap().unwrap() {
        SymlinkPath::NotLink(p) => assert_eq!(p.render(), "/t"),
        SymlinkPath::Symlink { .. } => panic!("expected the terminal hop"),
    }
    assert!(it.next_in(&fs).unwrap().is_none());
}

#[test]
fn suffix_is_preserved() {
    let fs = table(&[
        ("/", FsEntry::Dir),
        ("/l", FsEntry::Link(parse_path("/d"))),
        ("/d", FsEntry::Dir),
        ("/d/sub", FsEntry::Dir),
        ("/d/sub/file", FsEntry::File),
    ]);
    let mut it = resolve(parse_path("/l/sub/file"));
    let hop = it.next_in(&fs).unwrap().unwrap();
    match &hop {
        SymlinkPath::Symlink { source, target, suffix } => {
            assert_eq!(source.render(), "/l");
            assert_eq!(target.render(), "/d");
            assert_eq!(suffix.render(), "sub/file");
        }
        SymlinkPath::NotLink(_) => panic!("expected a link hop"),
    }
    assert_eq!(hop.resolve().render(), "/d/sub/file");
    match it.next_in(&fs).unwrap().unwrap() {
        SymlinkPath::NotLink(p) => assert_eq!(p.render(), "/d/sub/file"),
        SymlinkPath::Symlink { .. } => panic!("expected the terminal hop"),
    }
}

#[test]
fn relative_target_resolves_against_parent() {
    let fs = table(&[
        ("/", FsEntry::Dir),
        ("/a", FsEntry::Link(parse_path("/b"))),
        ("/b", FsEntry::Link(parse_path("relative_c"))),
    ]);
    let mut it = resolve(parse_path("/a"));
    let first = it.next_in(&fs).unwrap().unwrap();
    assert_eq!(first.resolve().render(), "/b");
    let second = it.next_in(&fs).unwrap().unwrap();
    match &second {
        SymlinkPath::Symlink { source, target, .. } => {
            assert_eq!(source.render(), "/b");
            assert_eq!(target.render(), "relative_c");
        }
        SymlinkPath::NotLink(_) => panic!("expected a link hop"),
    }
    assert_eq!(second.resolve().render(), "/relative_c");
    match it.next_in(&fs).unwrap().unwrap() {
        SymlinkPath::NotLink(p) => assert_eq!(p.render(), "/relative_c"),
        SymlinkPath::Symlink { .. } => panic!("expected the terminal hop"),
    }
    assert!(it.next_in(&fs).unwrap().is_none());
}

#[test]
fn missing_prefix_is_terminal_not_error() {
    let fs = table(&[("/", FsEntry::Dir)]);
    let mut it = resolve(parse_path("/x/y"));
    match it.next_in(&fs).unwrap().unwrap() {
        SymlinkPath::NotLink(p) => assert_eq!(p.render(), "/x/y"),
        SymlinkPath::Symlink { .. } => panic!("expected the terminal hop"),
    }
    assert!(it.next_in(&fs).unwrap().is_none());
}

#[test]
fn link_free_path_yields_one_terminal_hop() {
    let fs = table(&[
        ("/", FsEntry::Dir),
        ("/a", FsEntry::Dir),
        ("/a/b", FsEntry::File),
    ]);
    let mut it = resolve(parse_path("/a/b"));
    match it.next_in(&fs).unwrap().unwrap() {
        SymlinkPath::NotLink(p) => assert_eq!(p.render(), "/a/b"),
        SymlinkPath::Symlink { .. } => panic!("expected the terminal hop"),
    }
    assert!(it.next_in(&fs).unwrap().is_none());
}

#[test]
fn exhausted_sequence_stays_exhausted() {
    let fs = table(&[("/", FsEntry::Dir), ("/f", FsEntry::File)]);
    let mut it = resolve(parse_path("/f"));
    assert!(it.next_in(&fs).unwrap().is_some());
    assert!(it.is_done());
    assert!(it.next_in(&fs).unwrap().is_none());
    assert!(it.next_in(&fs).unwrap().is_none());
    assert!(it.next_in(&fs).unwrap().is_none());
}

#[test]
fn denied_probe_is_fatal() {
    let fs = table(&[("/", FsEntry::Dir), ("/p", FsEntry::Denied)]);
    let mut it = resolve(parse_path("/p"));
    let err = it.next_in(&fs).unwrap_err();
    assert_eq!(err.path.render(), "/p");
    assert!(it.is_done());
    assert!(it.next_in(&fs).unwrap().is_none());
}

#[test]
fn empty_path_is_terminal_at_once() {
    let fs = FsTable::new();
    let mut it = resolve(parse_path(""));
    match it.next_in(&fs).unwrap().unwrap() {
        SymlinkPath::NotLink(p) => assert_eq!(p.render(), ""),
        SymlinkPath::Symlink { .. } => panic!("expected the terminal hop"),
    }
    assert!(it.next_in(&fs).unwrap().is_none());
}

#[test]
fn empty_link_target_is_data_not_error() {
    let fs = table(&[
        ("/", FsEntry::Dir),
        ("/l", FsEntry::Link(parse_path(""))),
    ]);
    let mut it = resolve(parse_path("/l"));
    let hop = it.next_in(&fs).unwrap().unwrap();
    match &hop {
        SymlinkPath::Symlink { source, target, suffix } => {
            assert_eq!(source.render(), "/l");
            assert_eq!(target.render(), "");
            assert_eq!(suffix.render(), "");
        }
        SymlinkPath::NotLink(_) => panic!("expected a link hop"),
    }
    assert_eq!(hop.resolve().render(), "/");
    match it.next_in(&fs).unwrap().unwrap() {
        SymlinkPath::NotLink(p) => assert_eq!(p.render(), "/"),
        SymlinkPath::Symlink { .. } => panic!("expected the terminal hop"),
    }
    assert!(it.next_in(&fs).unwrap().is_none());
}

#[test]
fn earlier_table_rows_shadow_later_ones() {
    let fs = table(&[
        ("/", FsEntry::Dir),
        ("/f", FsEntry::File),
        ("/f", FsEntry::Link(parse_path("/other"))),
    ]);
    let mut it = resolve(parse_path("/f"));
    match it.next_in(&fs).unwrap().unwrap() {
        SymlinkPath::NotLink(p) => assert_eq!(p.render(), "/f"),
        SymlinkPath::Symlink { .. } => panic!("the first row says /f is a plain file"),
    }
}

#[test]
fn cycle_keeps_producing_hops() {
    let fs = table(&[
        ("/", FsEntry::Dir),
        ("/a", FsEntry::Link(parse_path("/b"))),
        ("/b", FsEntry::Link(parse_path("/a"))),
    ]);
    let mut it = resolve(parse_path("/a"));
    for expected in ["/a", "/b", "/a", "/b"] {
        match it.next_in(&fs).unwrap().unwrap() {
            SymlinkPath::Symlink { source, .. } => assert_eq!(source.render(), expected),
            SymlinkPath::NotLink(_) => panic!("a cyclic chain never reaches a terminal hop"),
        }
        assert!(!it.is_done());
    }
}

#[test]
fn search_machine_driven_by_hand() {
    let mut it = resolve(parse_path("/x/y"));
    let mut search = HopSearch::start(it.current_path().dup());
    let first = search.pending().unwrap();
    assert_eq!(first.render(), "/");
    assert!(search.step(Probe::NotLink).is_none());
    let second = search.pending().unwrap();
    assert_eq!(second.render(), "/x");
    let outcome = search.step(Probe::Link(parse_path("q"))).unwrap();
    match &outcome {
        FindOutcome::Found(SymlinkPath::Symlink { source, target, suffix }) => {
            assert_eq!(source.render(), "/x");
            assert_eq!(target.render(), "q");
            assert_eq!(suffix.render(), "y");
        }
        _ => panic!("expected a link hop"),
    }
    let hop = it.advance(outcome).unwrap().unwrap();
    assert_eq!(hop.resolve().render(), "/q/y");
    assert_eq!(it.current_path().render(), "/q/y");
    assert!(!it.is_done());
}

#[test]
fn missing_outcome_exhausts_by_hand() {
    let mut it = resolve(parse_path("/x"));
    let hop = it.advance(FindOutcome::Missing).unwrap().unwrap();
    match hop {
        SymlinkPath::NotLink(p) => assert_eq!(p.render(), "/x"),
        SymlinkPath::Symlink { .. } => panic!("expected the terminal hop"),
    }
    assert!(it.is_done());
}
