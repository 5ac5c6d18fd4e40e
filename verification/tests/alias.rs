use promptress::parts::workdir::apply_aliases;
use promptress::path::components;
use promptress::AliasTable;

#[test]
fn alias_table_starts_empty() {
    let table = AliasTable::new();
    assert_eq!(table.len(), 0);
    assert_eq!(table.position("/a"), None);
    assert_eq!(AliasTable::default().len(), 0);
}

#[test]
fn alias_table_keeps_the_order_of_insertion() {
    let mut table = AliasTable::new();
    assert_eq!(table.insert("/b", "B"), None);
    assert_eq!(table.insert("/a", "A"), None);
    assert_eq!(table.len(), 2);
    assert_eq!(table.prefix(0), "/b");
    assert_eq!(table.value(0), "B");
    assert_eq!(table.prefix(1), "/a");
    assert_eq!(table.value(1), "A");
    assert_eq!(table.position("/a"), Some(1));
    assert_eq!(table.position("/b"), Some(0));
    assert_eq!(table.position("/c"), None);
}

#[test]
fn alias_table_holds_a_prefix_once() {
    let mut table = AliasTable::new();
    assert_eq!(table.insert("/a", "first"), None);
    assert_eq!(table.insert("/b", "B"), None);
    assert_eq!(table.insert("/a", "second"), Some("first".to_string()));
    assert_eq!(table.len(), 2);
    assert_eq!(table.prefix(0), "/a");
    assert_eq!(table.value(0), "second");
    assert_eq!(table.prefix(1), "/b");
}

#[test]
fn the_longest_alias_wins_whatever_the_order() {
    let path = components(b"/alias/foo/bar");
    let mut short_first = AliasTable::new();
    short_first.insert("/alias", "A");
    short_first.insert("/alias/foo", "Foo");
    assert_eq!(apply_aliases(&path, &short_first), components(b"Foo/bar"));
    let mut long_first = AliasTable::new();
    long_first.insert("/alias/foo", "Foo");
    long_first.insert("/alias", "A");
    assert_eq!(apply_aliases(&path, &long_first), components(b"Foo/bar"));
}

#[test]
fn a_longer_alias_that_does_not_apply_is_passed_over() {
    let path = components(b"/alias/foo/bar");
    let mut aliases = AliasTable::new();
    aliases.insert("/alias/foo/baz/qux", "Long");
    aliases.insert("/alias", "A");
    assert_eq!(apply_aliases(&path, &aliases), components(b"A/foo/bar"));
}

#[test]
fn of_two_aliases_as_long_the_first_wins() {
    // both prefixes have eight characters and the same components
    let path = components(b"/a/b/c/d");
    let mut aliases = AliasTable::new();
    aliases.insert("/a/b/c//", "First");
    aliases.insert("/a//b/c/", "Second");
    assert_eq!(apply_aliases(&path, &aliases), components(b"First/d"));
    let mut turned = AliasTable::new();
    turned.insert("/a//b/c/", "Second");
    turned.insert("/a/b/c//", "First");
    assert_eq!(apply_aliases(&path, &turned), components(b"Second/d"));
}

#[test]
fn the_length_of_a_prefix_is_counted_in_characters() {
    // "/a//" has four characters and one name; "/a/b" has four and two
    let path = components(b"/a/b");
    let mut aliases = AliasTable::new();
    aliases.insert("/a//", "One");
    aliases.insert("/a/b", "Two");
    assert_eq!(apply_aliases(&path, &aliases), components(b"One/b"));
    // two characters of three bytes each are shorter than seven of one byte
    let path = components("/\u{65e5}\u{672c}/x/y".as_bytes());
    let mut aliases = AliasTable::new();
    aliases.insert("/\u{65e5}\u{672c}", "Short");
    aliases.insert("/\u{65e5}\u{672c}/x", "Long");
    assert_eq!(apply_aliases(&path, &aliases), components(b"Long/y"));
}

#[test]
fn an_empty_prefix_never_applies() {
    let path = components(b"/a/b");
    let mut aliases = AliasTable::new();
    aliases.insert("", "Everything");
    assert_eq!(apply_aliases(&path, &aliases), path);
}

#[test]
fn an_alias_of_the_root_applies_to_every_absolute_path() {
    let mut aliases = AliasTable::new();
    aliases.insert("/", "Root");
    assert_eq!(apply_aliases(&components(b"/a/b"), &aliases), components(b"Root/a/b"));
    assert_eq!(apply_aliases(&components(b"/"), &aliases), components(b"Root"));
    assert_eq!(apply_aliases(&components(b"a/b"), &aliases), components(b"a/b"));
}

#[test]
fn a_replacement_may_have_several_components_or_none() {
    let path = components(b"/home/user/src/x");
    let mut aliases = AliasTable::new();
    aliases.insert("/home/user", "~/of/user");
    assert_eq!(apply_aliases(&path, &aliases), components(b"~/of/user/src/x"));
    let mut gone = AliasTable::new();
    gone.insert("/home/user", "");
    assert_eq!(apply_aliases(&path, &gone), components(b"src/x"));
    let mut absolute = AliasTable::new();
    absolute.insert("/home/user", "/u");
    assert_eq!(apply_aliases(&path, &absolute), components(b"/u/src/x"));
}

#[test]
fn a_prefix_applies_by_its_components_not_its_spelling() {
    let path = components(b"/alias//foo/./bar");
    let mut aliases = AliasTable::new();
    aliases.insert("/alias/foo/", "Foo");
    assert_eq!(apply_aliases(&path, &aliases), components(b"Foo/bar"));
}
