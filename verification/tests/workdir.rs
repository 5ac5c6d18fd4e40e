use promptress::parts::workdir::{apply_aliases, process_path, Part};
use promptress::path::components;
use promptress::{AliasTable, WorkDir};
use std::path::Path;

#[test]
fn process_path_aliased() {
    let path = Path::new("/home/user/foo");
    let path_aliased = components(b"User/foo");
    assert_eq!(
        process_path(path, &path_aliased, &Default::default()),
        vec![Part::Dir("User".into()), Part::Stem("foo".into())]
    );
}

#[test]
fn process_path_absolute() {
    let path = Path::new("/home/user/foo");
    assert_eq!(
        process_path(path, &components(b"/home/user/foo"), &Default::default()),
        vec![
            Part::Root,
            Part::Dir("home".into()),
            Part::Dir("user".into()),
            Part::Stem("foo".into()),
        ]
    );
}

#[test]
fn process_path_special_parts() {
    let path = Path::new("./foo/../bar");
    assert_eq!(
        process_path(path, &components(b"./foo/../bar"), &Default::default()),
        vec![
            Part::Dir(".".into()),
            Part::Dir("foo".into()),
            Part::Dir("..".into()),
            Part::Stem("bar".into()),
        ]
    );
}

#[test]
fn process_path_root() {
    let path = Path::new("/");
    assert_eq!(
        process_path(path, &components(b"/"), &Default::default()),
        vec![Part::RootStem]
    );
}

#[test]
fn process_path_truncate() {
    let path = Path::new("/one/two/three/four/five/six/seven");
    let mut conf = WorkDir::default();
    conf.path_max_len = 10;
    assert_eq!(
        process_path(path, &components(b"/one/two/three/four/five/six/seven"), &conf),
        vec![Part::Truncate, Part::Stem("seven".into())]
    );
}

#[test]
fn process_path_non_utf8() {
    // \xff is invalid UTF-8
    let path = Path::new("/foo");
    let conf = WorkDir::default();
    assert_eq!(
        process_path(path, &components(b"/foo/\xff"), &conf),
        vec![
            Part::Root,
            Part::Dir("foo".into()),
            Part::Stem("\u{fffd}".into()),
        ]
    );
}

#[test]
fn apply_alias_no_match() {
    let path = components(b"/no/match");
    let aliases = AliasTable::new();
    assert_eq!(apply_aliases(&path, &aliases), path);
}

#[test]
fn apply_alias_exact() {
    let path = components(b"/alias/foo");
    let mut aliases = AliasTable::new();
    aliases.insert("/alias/foo", "Foo");
    assert_eq!(apply_aliases(&path, &aliases), components(b"Foo"));
}

#[test]
fn apply_alias_partial() {
    let path = components(b"/alias/foo/bar");
    let mut aliases = AliasTable::new();
    aliases.insert("/alias/foo", "Foo");
    assert_eq!(apply_aliases(&path, &aliases), components(b"Foo/bar"));
}

#[test]
fn apply_alias_partial_component() {
    let path = components(b"/alias/foobar");
    let mut aliases = AliasTable::new();
    aliases.insert("/alias/foo", "Foo");
    assert_eq!(apply_aliases(&path, &aliases), path);
}

#[test]
fn apply_alias_non_utf8() {
    let path = components(b"/alias/\xff/a");
    let aliases = AliasTable::new();
    assert_eq!(apply_aliases(&path, &aliases), path);
}
