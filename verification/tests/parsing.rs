use readlinks::parse_path;

#[test]
fn parse_absolute_multi() {
    let p = parse_path("/a/b");
    assert!(p.absolute);
    assert_eq!(p.parts.len(), 2);
    assert_eq!(p.parts[0], "a");
    assert_eq!(p.parts[1], "b");
    assert_eq!(p.render(), "/a/b");
}

#[test]
fn parse_relative() {
    let p = parse_path("a/b/c");
    assert!(!p.absolute);
    assert_eq!(p.parts, vec!["a", "b", "c"]);
    assert_eq!(p.render(), "a/b/c");
}

#[test]
fn parse_collapses_repeated_separators() {
    let p = parse_path("//a//b/");
    assert!(p.absolute);
    assert_eq!(p.parts, vec!["a", "b"]);
    assert_eq!(p.render(), "/a/b");
}

#[test]
fn parse_empty() {
    let p = parse_path("");
    assert!(!p.absolute);
    assert!(p.parts.is_empty());
    assert_eq!(p.render(), "");
}

#[test]
fn parse_root() {
    let p = parse_path("/");
    assert!(p.absolute);
    assert!(p.parts.is_empty());
    assert_eq!(p.render(), "/");
}

#[test]
fn path_eq_ignores_separator_noise() {
    assert!(parse_path("/a/b").path_eq(&parse_path("//a/b/")));
    assert!(!parse_path("/a/b").path_eq(&parse_path("/a")));
    assert!(!parse_path("/a").path_eq(&parse_path("a")));
}

#[test]
fn join_relative_appends() {
    let r = parse_path("/usr").join(&parse_path("bin"));
    assert_eq!(r.render(), "/usr/bin");
}

#[test]
fn join_absolute_replaces() {
    let r = parse_path("/a/b").join(&parse_path("/c"));
    assert_eq!(r.render(), "/c");
}

#[test]
fn parent_drops_last_component() {
    assert_eq!(parse_path("/a/b").parent().render(), "/a");
    assert_eq!(parse_path("/a").parent().render(), "/");
    assert_eq!(parse_path("a").parent().render(), "");
}

#[test]
fn render_then_parse_round_trips() {
    for s in ["/a/b", "a", "", "/", "a/b/c", "//x//"] {
        let p = parse_path(s);
        assert!(parse_path(&p.render()).path_eq(&p));
    }
}

#[test]
fn prefix_and_suffix_parts() {
    let p = parse_path("/a/b/c");
    assert_eq!(p.take_parts(2).render(), "/a/b");
    assert_eq!(p.parts_from(1).render(), "b/c");
}
