use readlinks::{expand_path, parse_path, FsEntry, FsTable, NodePath};

fn dirs(list: &[&str]) -> Vec<NodePath> {
    list.iter().map(|d| parse_path(d)).collect()
}

#[test]
fn expand_picks_first_existing_file() {
    let mut fs = FsTable::new();
    fs.add(parse_path("/bin/ls"), FsEntry::File);
    let search = dirs(&["/bin", "/usr/bin"]);
    let r = expand_path(&fs, &search, &parse_path("ls"));
    assert_eq!(r.render(), "/bin/ls");
}

#[test]
fn expand_respects_listed_order() {
    let mut fs = FsTable::new();
    fs.add(parse_path("/bin/ls"), FsEntry::File);
    fs.add(parse_path("/usr/bin/ls"), FsEntry::File);
    let search = dirs(&["/usr/bin", "/bin"]);
    let r = expand_path(&fs, &search, &parse_path("ls"));
    assert_eq!(r.render(), "/usr/bin/ls");
}

#[test]
fn expand_skips_non_file_entries() {
    let mut fs = FsTable::new();
    fs.add(parse_path("/a/x"), FsEntry::Dir);
    fs.add(parse_path("/b/x"), FsEntry::File);
    let search = dirs(&["/a", "/b"]);
    let r = expand_path(&fs, &search, &parse_path("x"));
    assert_eq!(r.render(), "/b/x");
}

#[test]
fn expand_passes_multi_component_through() {
    let mut fs = FsTable::new();
    fs.add(parse_path("/bin/a/b"), FsEntry::File);
    let search = dirs(&["/bin"]);
    let r = expand_path(&fs, &search, &parse_path("a/b"));
    assert_eq!(r.render(), "a/b");
}

#[test]
fn expand_passes_absolute_path_through() {
    let mut fs = FsTable::new();
    fs.add(parse_path("/bin/ls"), FsEntry::File);
    let search = dirs(&["/bin"]);
    let r = expand_path(&fs, &search, &parse_path("/bin/ls"));
    assert_eq!(r.render(), "/bin/ls");
}

#[test]
fn expand_passes_unmatched_name_through() {
    let mut fs = FsTable::new();
    fs.add(parse_path("/bin/ls"), FsEntry::File);
    let search = dirs(&["/bin", "/usr/bin"]);
    let r = expand_path(&fs, &search, &parse_path("no_such_tool"));
    assert_eq!(r.render(), "no_such_tool");
}

#[test]
fn expand_with_empty_search_path() {
    let fs = FsTable::new();
    let search: Vec<NodePath> = Vec::new();
    let r = expand_path(&fs, &search, &parse_path("ls"));
    assert_eq!(r.render(), "ls");
}
