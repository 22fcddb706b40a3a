use watcher::FsPath;

#[test]
fn parse_and_render_round_trip() {
    let p = FsPath::parse("/a/b/c");
    assert!(p.absolute);
    assert_eq!(p.components.len(), 3);
    assert_eq!(p.render(), "/a/b/c");
}

#[test]
fn parse_drops_empty_segments() {
    let p = FsPath::parse("/a//b///c/");
    assert_eq!(p.render(), "/a/b/c");
}

#[test]
fn parse_relative() {
    let p = FsPath::parse("x/y");
    assert!(!p.absolute);
    assert_eq!(p.render(), "x/y");
}

#[test]
fn root_renders_as_slash() {
    assert_eq!(FsPath::root().render(), "/");
    assert_eq!(FsPath::parse("/").render(), "/");
}

#[test]
fn resolve_parent_markers() {
    let root = FsPath::parse("/a/b/c/");
    let spec = FsPath::parse("../../e/");
    let r = spec.resolve_against(&root);
    assert_eq!(r.render(), "/a/e");
}

#[test]
fn resolve_current_marker() {
    let root = FsPath::parse("/a/");
    let spec = FsPath::parse("./b/");
    let r = spec.resolve_against(&root);
    assert_eq!(r.render(), "/a/b");
}

#[test]
fn resolve_clamps_at_filesystem_root() {
    let root = FsPath::parse("/a/");
    let spec = FsPath::parse("../../../");
    let r = spec.resolve_against(&root);
    assert_eq!(r.render(), "/");
}

#[test]
fn resolve_absolute_destination_stands_alone() {
    let root = FsPath::parse("/a/b");
    let spec = FsPath::parse("/x/y");
    let r = spec.resolve_against(&root);
    assert_eq!(r.render(), "/x/y");
}

#[test]
fn resolve_markers_in_the_middle() {
    let root = FsPath::parse("/w");
    let spec = FsPath::parse("a/../b");
    let r = spec.resolve_against(&root);
    assert_eq!(r.render(), "/w/b");
}

#[test]
fn resolve_is_idempotent() {
    let root = FsPath::parse("/a/b/c");
    let spec = FsPath::parse("../x/./y");
    let once = spec.resolve_against(&root);
    let twice = once.resolve_against(&FsPath::root());
    assert!(watcher::path::path_eq(&once, &twice));
    assert_eq!(once.render(), "/a/b/x/y");
}

#[test]
fn join_and_file_name() {
    let p = FsPath::parse("/w/zips");
    let q = p.join_name(&"a.zip".to_string());
    assert_eq!(q.render(), "/w/zips/a.zip");
    assert_eq!(q.file_name().unwrap(), "a.zip");
    assert!(FsPath::root().file_name().is_none());
}

#[test]
fn path_equality() {
    let a = FsPath::parse("/a/b");
    let b = FsPath::parse("/a//b/");
    let c = FsPath::parse("/a/c");
    let d = FsPath::parse("a/b");
    assert!(watcher::path::path_eq(&a, &b));
    assert!(!watcher::path::path_eq(&a, &c));
    assert!(!watcher::path::path_eq(&a, &d));
}

#[test]
fn name_stem_cases() {
    assert_eq!(watcher::path::name_stem("a.zip"), "a");
    assert_eq!(watcher::path::name_stem("archive.tar.gz"), "archive.tar");
    assert_eq!(watcher::path::name_stem("plain"), "plain");
    assert_eq!(watcher::path::name_stem(".zip"), ".zip");
}

#[test]
fn partial_download_marker() {
    assert!(watcher::path::name_has_partial_ext("movie.mkv.part"));
    assert!(!watcher::path::name_has_partial_ext("movie.mkv"));
    assert!(!watcher::path::name_has_partial_ext("part"));
    assert!(!watcher::path::name_has_partial_ext(".part"));
    assert!(!watcher::path::name_has_partial_ext("a.partial"));
}

#[test]
fn stamped_appends_to_name() {
    let p = FsPath::parse("/d/a.zip");
    let s = p.stamped("17");
    assert_eq!(s.render(), "/d/a.zip.17");
}
