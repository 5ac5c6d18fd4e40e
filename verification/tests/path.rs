use promptress::path::{components, starts_with, Component};
use std::path::Path;

fn normal(name: &str) -> Component {
    Component::Normal(name.as_bytes().to_vec())
}

fn as_std_has_it(path: &str) -> Vec<Component> {
    let mut out = Vec::new();
    for component in Path::new(path).components() {
        out.push(match component {
            std::path::Component::RootDir => Component::Root,
            std::path::Component::CurDir => Component::CurDir,
            std::path::Component::ParentDir => Component::ParentDir,
            std::path::Component::Normal(name) => normal(name.to_str().unwrap()),
            std::path::Component::Prefix(_) => unreachable!(),
        });
    }
    out
}

#[test]
fn components_of_the_empty_path() {
    assert_eq!(components(b""), vec![]);
}

#[test]
fn components_of_the_root() {
    assert_eq!(components(b"/"), vec![Component::Root]);
    assert_eq!(components(b"//"), vec![Component::Root]);
    assert_eq!(components(b"///"), vec![Component::Root]);
}

#[test]
fn components_of_an_absolute_path() {
    assert_eq!(
        components(b"/home/user"),
        vec![Component::Root, normal("home"), normal("user")]
    );
}

#[test]
fn components_skip_empty_names() {
    assert_eq!(components(b"a//b/"), vec![normal("a"), normal("b")]);
    assert_eq!(
        components(b"//a///b//"),
        vec![Component::Root, normal("a"), normal("b")]
    );
}

#[test]
fn components_keep_a_leading_dot_only() {
    assert_eq!(components(b"."), vec![Component::CurDir]);
    assert_eq!(components(b"./"), vec![Component::CurDir]);
    assert_eq!(components(b"./a"), vec![Component::CurDir, normal("a")]);
    assert_eq!(components(b"a/./b"), vec![normal("a"), normal("b")]);
    assert_eq!(components(b"a/."), vec![normal("a")]);
    assert_eq!(components(b"/./a"), vec![Component::Root, normal("a")]);
    assert_eq!(components(b"/."), vec![Component::Root]);
    assert_eq!(components(b"./."), vec![Component::CurDir]);
}

#[test]
fn components_keep_every_parent_dir() {
    assert_eq!(components(b".."), vec![Component::ParentDir]);
    assert_eq!(
        components(b"../a/.."),
        vec![Component::ParentDir, normal("a"), Component::ParentDir]
    );
    assert_eq!(
        components(b"/.."),
        vec![Component::Root, Component::ParentDir]
    );
}

#[test]
fn components_take_names_with_dots_as_names() {
    assert_eq!(components(b"..."), vec![normal("...")]);
    assert_eq!(components(b".a"), vec![normal(".a")]);
    assert_eq!(components(b"a."), vec![normal("a.")]);
    assert_eq!(components(b"..a/.git"), vec![normal("..a"), normal(".git")]);
}

#[test]
fn components_keep_bytes_that_are_no_text() {
    assert_eq!(
        components(b"/a\xff/\xfe"),
        vec![
            Component::Root,
            Component::Normal(vec![b'a', 0xff]),
            Component::Normal(vec![0xfe]),
        ]
    );
}

#[test]
fn components_agree_with_the_standard_library() {
    let paths = [
        "",
        "/",
        "//",
        ".",
        "./",
        ".//",
        "..",
        "../",
        "a",
        "a/",
        "/a",
        "/a/",
        "a/b",
        "a//b",
        "a/./b",
        "a/../b",
        "./a",
        "./a/.",
        "././a",
        "/./a",
        "/a/./",
        "/a/b/../c/./d//",
        "...",
        ".../..",
        ".hidden/.git",
        "/home/user/foo",
        "./foo/../bar",
        "/one/two/three/four/five/six/seven",
        "/caf\u{e9}/\u{65e5}\u{672c}",
        " / ",
    ];
    for path in paths {
        assert_eq!(components(path.as_bytes()), as_std_has_it(path), "{:?}", path);
    }
}

#[test]
fn same_as_compares_kind_and_name() {
    assert!(Component::Root.same_as(&Component::Root));
    assert!(Component::CurDir.same_as(&Component::CurDir));
    assert!(Component::ParentDir.same_as(&Component::ParentDir));
    assert!(normal("a").same_as(&normal("a")));
    assert!(!normal("a").same_as(&normal("b")));
    assert!(!normal("a").same_as(&normal("ab")));
    assert!(!Component::Root.same_as(&Component::CurDir));
    assert!(!normal("..").same_as(&Component::ParentDir));
}

#[test]
fn duplicate_gives_an_equal_component() {
    for component in components(b"/a/../bc") {
        assert_eq!(component.duplicate(), component);
    }
    assert_eq!(Component::CurDir.duplicate(), Component::CurDir);
}

#[test]
fn starts_with_goes_by_whole_components() {
    let path = components(b"/alias/foobar/x");
    assert!(starts_with(&path, &components(b"")));
    assert!(starts_with(&path, &components(b"/")));
    assert!(starts_with(&path, &components(b"/alias")));
    assert!(starts_with(&path, &components(b"/alias/")));
    assert!(starts_with(&path, &components(b"/alias/foobar")));
    assert!(starts_with(&path, &components(b"/alias/foobar/x")));
    assert!(!starts_with(&path, &components(b"/alias/foo")));
    assert!(!starts_with(&path, &components(b"alias")));
    assert!(!starts_with(&path, &components(b"/alias/foobar/x/y")));
    assert!(!starts_with(&path, &components(b"/alias/foobar/y")));
}
