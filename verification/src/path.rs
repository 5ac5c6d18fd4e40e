//! Paths as sequences of components.
//!
//! A path is a string of bytes in which `/` separates names. Its components
//! are: the root, if the path starts with a separator; then one component for
//! each name, where empty names are skipped, and a name `.` too unless the
//! path starts with it. `..` is a component of its own kind and is not
//! resolved. Two paths with the same components are the same path.

use crate::text::bytes_eq;
use vstd::prelude::*;
use vstd::slice::*;

verus! {

/// The byte that separates names in a path.
pub const SEPARATOR: u8 = 0x2f;

/// The byte of which the names `.` and `..` are made.
pub const DOT: u8 = 0x2e;

/// One component of a path.
#[derive(Clone, Debug, PartialEq, Eq)]
pub enum Component {
    /// The root directory.
    Root,
    /// `.` at the start of a path.
    CurDir,
    /// `..`
    ParentDir,
    /// Any other name, as its bytes.
    Normal(Vec<u8>),
}

/// What a component is, with a name as a sequence of bytes.
pub enum ComponentView {
    Root,
    CurDir,
    ParentDir,
    Normal(Seq<u8>),
}

impl View for Component {
    type V = ComponentView;

    /// The component, with a name as a sequence of bytes.
    open spec fn view(&self) -> ComponentView {
        match self {
            Component::Root => ComponentView::Root,
            Component::CurDir => ComponentView::CurDir,
            Component::ParentDir => ComponentView::ParentDir,
            Component::Normal(name) => ComponentView::Normal(name@),
        }
    }
}

/// The views of the components of `path`, in order.
pub open spec fn component_views(path: Seq<Component>) -> Seq<ComponentView> {
    path.map_values(|c: Component| c@)
}

/// Where the name that ends before `end` starts: behind the last separator
/// before `end`, or at 0.
pub open spec fn name_start(path: Seq<u8>, end: int) -> int
    decreases end,
{
    if end <= 0 || path[end - 1] == SEPARATOR {
        end
    } else {
        name_start(path, end - 1)
    }
}

/// The component that the name `path[start..end]` stands for, if any.
/// The name is not empty.
pub open spec fn named(path: Seq<u8>, start: int, end: int) -> Seq<ComponentView> {
    let name = path.subrange(start, end);
    if name == seq![DOT] {
        if start == 0 {
            seq![ComponentView::CurDir]
        } else {
            Seq::empty()
        }
    } else if name == seq![DOT, DOT] {
        seq![ComponentView::ParentDir]
    } else {
        seq![ComponentView::Normal(name)]
    }
}

/// The components of `path` that end within its first `end` bytes.
pub open spec fn components_upto(path: Seq<u8>, end: int) -> Seq<ComponentView>
    decreases end,
{
    if end <= 0 {
        Seq::empty()
    } else if path[end - 1] == SEPARATOR {
        if end == 1 {
            seq![ComponentView::Root]
        } else {
            components_upto(path, end - 1)
        }
    } else if end < path.len() && path[end] != SEPARATOR {
        // inside a name
        components_upto(path, end - 1)
    } else {
        // a name ends here
        components_upto(path, end - 1) + named(path, name_start(path, end), end)
    }
}

/// The components of `path`.
pub open spec fn path_components(path: Seq<u8>) -> Seq<ComponentView> {
    components_upto(path, path.len() as int)
}

/// A name starts before it ends, behind a separator or at the start of the
/// path, and holds no separator.
proof fn lemma_name_start(path: Seq<u8>, end: int)
    requires
        0 < end <= path.len(),
        path[end - 1] != SEPARATOR,
    ensures
        0 <= name_start(path, end) < end,
        name_start(path, end) == 0 || path[name_start(path, end) - 1] == SEPARATOR,
        forall|j: int| name_start(path, end) <= j < end ==> path[j] != SEPARATOR,
    decreases end,
{
    if end - 1 > 0 && path[end - 2] != SEPARATOR {
        lemma_name_start(path, end - 1);
    } else {
        assert(name_start(path, end - 1) == end - 1);
    }
}

/// Before the end of a name that starts the path, no component ends.
proof fn lemma_nothing_before_first_name(path: Seq<u8>, end: int)
    requires
        0 <= end < path.len(),
        forall|j: int| 0 <= j <= end ==> path[j] != SEPARATOR,
    ensures
        components_upto(path, end) == Seq::<ComponentView>::empty(),
    decreases end,
{
    if end > 0 {
        lemma_nothing_before_first_name(path, end - 1);
    }
}

/// What the components of a path are like: the root stands first or
/// nowhere, and it stands first where the path starts with a separator; `.`
/// stands first or nowhere; every other name has at least one byte, holds no
/// separator, and is neither `.` nor `..`.
pub open spec fn well_shaped(path: Seq<u8>, parsed: Seq<ComponentView>) -> bool {
    &&& forall|i: int| 0 <= i < parsed.len() && #[trigger] parsed[i] is Root ==> i == 0
    &&& forall|i: int| 0 <= i < parsed.len() && #[trigger] parsed[i] is CurDir ==> i == 0
    &&& (parsed.len() > 0 && parsed[0] is Root) <==> (path.len() > 0 && path[0] == SEPARATOR)
    &&& forall|i: int|
        0 <= i < parsed.len() ==> (#[trigger] parsed[i] matches ComponentView::Normal(name) ==> {
            &&& name.len() > 0
            &&& forall|j: int| 0 <= j < name.len() ==> name[j] != SEPARATOR
            &&& name != seq![DOT]
            &&& name != seq![DOT, DOT]
        })
}

/// The components that end within the first `end` bytes of a path are well
/// shaped for those bytes.
proof fn lemma_components_upto(path: Seq<u8>, end: int)
    requires
        0 <= end <= path.len(),
    ensures
        well_shaped(path.take(end), components_upto(path, end)),
    decreases end,
{
    if end > 0 {
        if end > 1 || path[end - 1] != SEPARATOR {
            lemma_components_upto(path, end - 1);
        }
        if path[end - 1] != SEPARATOR && (end == path.len() || path[end] == SEPARATOR) {
            // a name ends here
            lemma_name_start(path, end);
            let start = name_start(path, end);
            if start == 0 {
                if end > 1 {
                    lemma_nothing_before_first_name(path, end - 1);
                }
            } else if named(path, start, end).len() > 0 {
                // behind a separator stands the root or a name
                lemma_something_before(path, end - 1, start);
            }
        }
    }
}

/// Where a path has a separator, something ends at or before it: the root
/// or a name.
proof fn lemma_something_before(path: Seq<u8>, end: int, at: int)
    requires
        0 < at <= end <= path.len(),
        path[at - 1] == SEPARATOR,
        forall|j: int| at <= j < end ==> path[j] != SEPARATOR,
        end < path.len() ==> path[end] != SEPARATOR,
        end < path.len(),
    ensures
        components_upto(path, end) == components_upto(path, at),
        path[0] == SEPARATOR ==> components_upto(path, at).len() > 0,
    decreases end,
{
    if end > at {
        lemma_something_before(path, end - 1, at);
    } else if path[0] == SEPARATOR {
        lemma_starts_with_root(path, at);
    }
}

/// A path that starts with a separator has a component as soon as the
/// separator is read.
proof fn lemma_starts_with_root(path: Seq<u8>, end: int)
    requires
        0 < end <= path.len(),
        path[0] == SEPARATOR,
    ensures
        components_upto(path, end).len() > 0,
    decreases end,
{
    if end > 1 {
        lemma_starts_with_root(path, end - 1);
    }
}

/// The components of every path are well shaped.
pub proof fn lemma_components_shape(path: Seq<u8>)
    ensures
        well_shaped(path, path_components(path)),
{
    lemma_components_upto(path, path.len() as int);
}

/// The path that is one separator has one component, the root.
pub proof fn lemma_root_path()
    ensures
        path_components(seq![SEPARATOR]) == seq![ComponentView::Root],
{
}

/// Whether `prefix` is the start of `path`, component by component.
pub open spec fn has_prefix(path: Seq<ComponentView>, prefix: Seq<ComponentView>) -> bool {
    prefix.len() <= path.len() && path.subrange(0, prefix.len() as int) == prefix
}

impl Component {
    /// Whether two components are the same.
    pub fn same_as(&self, other: &Component) -> (same: bool)
        ensures
            same == (self@ == other@),
    {
        match (self, other) {
            (Component::Root, Component::Root) => true,
            (Component::CurDir, Component::CurDir) => true,
            (Component::ParentDir, Component::ParentDir) => true,
            (Component::Normal(a), Component::Normal(b)) => bytes_eq(a.as_slice(), b.as_slice()),
            _ => false,
        }
    }

    /// A copy of this component.
    pub fn duplicate(&self) -> (copy: Component)
        ensures
            copy@ == self@,
    {
        match self {
            Component::Root => Component::Root,
            Component::CurDir => Component::CurDir,
            Component::ParentDir => Component::ParentDir,
            Component::Normal(name) => Component::Normal(slice_to_vec(name.as_slice())),
        }
    }
}

/// Splits a path into its components.
pub fn components(path: &[u8]) -> (parsed: Vec<Component>)
    ensures
        component_views(parsed@) == path_components(path@),
{
    let mut parsed: Vec<Component> = Vec::new();
    let mut start: usize = 0;
    let mut i: usize = 0;
    while i < path.len()
        invariant
            i <= path@.len(),
            start <= i,
            start == name_start(path@, i as int),
            component_views(parsed@) == components_upto(path@, i as int),
        decreases path@.len() - i,
    {
        let ghost before = component_views(parsed@);
        if path[i] == SEPARATOR {
            if i == 0 {
                parsed.push(Component::Root);
            }
            start = i + 1;
        } else if i + 1 == path.len() || path[i + 1] == SEPARATOR {
            let end = i + 1;
            let ghost name = path@.subrange(start as int, end as int);
            if end - start == 1 && path[start] == DOT {
                assert(name =~= seq![DOT]);
                if start == 0 {
                    parsed.push(Component::CurDir);
                }
            } else if end - start == 2 && path[start] == DOT && path[start + 1] == DOT {
                assert(name =~= seq![DOT, DOT]);
                assert(name != seq![DOT]);
                parsed.push(Component::ParentDir);
            } else {
                assert(name != seq![DOT]) by {
                    if name == seq![DOT] {
                        assert(name.len() == 1);
                        assert(name[0] == DOT);
                    }
                }
                assert(name != seq![DOT, DOT]) by {
                    if name == seq![DOT, DOT] {
                        assert(name[0] == DOT);
                        assert(name[1] == DOT);
                    }
                }
                let bytes = slice_to_vec(slice_subrange(path, start, end));
                parsed.push(Component::Normal(bytes));
                assert(component_views(parsed@) =~= before + seq![ComponentView::Normal(name)]);
            }
        } else {
            assert(name_start(path@, i + 1) == start);
        }
        i += 1;
    }
    parsed
}

/// Whether `path` starts with the components of `prefix`.
pub fn starts_with(path: &[Component], prefix: &[Component]) -> (found: bool)
    ensures
        found == has_prefix(component_views(path@), component_views(prefix@)),
{
    if prefix.len() > path.len() {
        return false;
    }
    let ghost whole = component_views(path@);
    let ghost wanted = component_views(prefix@);
    let mut i: usize = 0;
    while i < prefix.len()
        invariant
            i <= prefix@.len(),
            prefix@.len() <= path@.len(),
            whole == component_views(path@),
            wanted == component_views(prefix@),
            forall|k: int| 0 <= k < i ==> whole[k] == wanted[k],
        decreases prefix@.len() - i,
    {
        if !path[i].same_as(&prefix[i]) {
            assert(whole.subrange(0, wanted.len() as int)[i as int] != wanted[i as int]);
            return false;
        }
        i += 1;
    }
    assert(whole.subrange(0, wanted.len() as int) =~= wanted);
    true
}

} // verus!
