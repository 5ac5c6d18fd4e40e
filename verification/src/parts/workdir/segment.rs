//! What the chips of a path are: which parts a walk from the deepest
//! component to the root offers, how many of them the length budget keeps,
//! and which one is marked as the deepest.

use crate::config::WorkDir;
use crate::outside::lossy_text;
use crate::parts::workdir::git::{GitStatus, GitStatusView};
use crate::path::ComponentView;
use vstd::prelude::*;
use vstd::utf8::{
    decode_utf8, encode_utf8, encode_utf8_decode_utf8, encode_utf8_valid_utf8, valid_utf8,
};

verus! {

/// One chip of the working directory.
#[derive(Clone, Debug, PartialEq, Eq)]
pub enum Part {
    /// Stands for the components that were left out.
    Truncate,
    /// The root directory, above the deepest component.
    Root,
    /// The root directory as the deepest component.
    RootStem,
    /// A component above the deepest one.
    Dir(String),
    /// The deepest component.
    Stem(String),
    /// The repository found at the component before it.
    Git(GitStatus),
}

/// A `Part` with its text as a sequence of characters.
pub enum PartView {
    Truncate,
    Root,
    RootStem,
    Dir(Seq<char>),
    Stem(Seq<char>),
    Git(GitStatusView),
}

impl View for Part {
    type V = PartView;

    /// The part with its text as a sequence of characters.
    open spec fn view(&self) -> PartView {
        match self {
            Part::Truncate => PartView::Truncate,
            Part::Root => PartView::Root,
            Part::RootStem => PartView::RootStem,
            Part::Dir(name) => PartView::Dir(name@),
            Part::Stem(name) => PartView::Stem(name@),
            Part::Git(status) => PartView::Git(status@),
        }
    }
}

/// The views of `parts`, in order.
pub open spec fn part_views(parts: Seq<Part>) -> Seq<PartView> {
    parts.map_values(|part: Part| part@)
}

/// What each part costs beside its characters: room for what is drawn
/// between two chips.
pub const PART_OVERHEAD: usize = 3;

impl PartView {
    /// The number of characters of the part before any cutting.
    pub open spec fn chars(self, conf: WorkDir) -> nat {
        match self {
            PartView::Truncate => conf.path_trun@.len(),
            PartView::Root | PartView::RootStem => 1,
            PartView::Dir(name) | PartView::Stem(name) => name.len(),
            PartView::Git(status) => status.branch.len(),
        }
    }

    /// The number of characters that the part may take: no more than one
    /// component is allowed.
    pub open spec fn truncated_chars(self, conf: WorkDir) -> nat {
        if self.chars(conf) <= conf.comp_max_len {
            self.chars(conf)
        } else {
            conf.comp_max_len as nat
        }
    }

    /// What the part takes from the budget of the path.
    pub open spec fn cost(self, conf: WorkDir) -> nat {
        PART_OVERHEAD as nat + self.truncated_chars(conf)
    }

    /// Whether the part stands for a component of the path.
    pub open spec fn is_component(self) -> bool {
        self is Root || self is RootStem || self is Dir || self is Stem
    }

    /// Whether the part is marked as the deepest component.
    pub open spec fn is_stem(self) -> bool {
        self is RootStem || self is Stem
    }

    /// The part marked as the deepest component, where it stands for a
    /// component.
    pub open spec fn as_stem(self) -> PartView {
        match self {
            PartView::Root => PartView::RootStem,
            PartView::Dir(name) => PartView::Stem(name),
            _ => self,
        }
    }

    /// The text of the component that the part stands for, uncut.
    pub open spec fn raw_text(self) -> Seq<char> {
        match self {
            PartView::Root | PartView::RootStem => seq!['/'],
            PartView::Dir(name) | PartView::Stem(name) => name,
            _ => Seq::empty(),
        }
    }
}

/// The text that a name shows as: the text that its bytes encode, or where
/// they encode none, what lossy decoding makes of them.
pub open spec fn name_text(name: Seq<u8>) -> Seq<char> {
    if valid_utf8(name) {
        decode_utf8(name)
    } else {
        lossy_text(name)
    }
}

/// A name that is the encoding of a text shows as that text.
pub proof fn lemma_name_of_text(text: Seq<char>)
    ensures
        name_text(encode_utf8(text)) == text,
{
    encode_utf8_valid_utf8(text);
    encode_utf8_decode_utf8(text);
}

/// The text of a component.
pub open spec fn component_text(component: ComponentView) -> Seq<char> {
    match component {
        ComponentView::Root => seq!['/'],
        ComponentView::CurDir => seq!['.'],
        ComponentView::ParentDir => seq!['.', '.'],
        ComponentView::Normal(name) => name_text(name),
    }
}

/// The part that a component shows as, not yet marked as the deepest.
pub open spec fn shown(component: ComponentView) -> PartView {
    match component {
        ComponentView::Root => PartView::Root,
        _ => PartView::Dir(component_text(component)),
    }
}

/// The name of the directory in which a repository keeps its own files.
pub open spec fn git_dir() -> Seq<u8> {
    seq![0x2eu8, 0x67u8, 0x69u8, 0x74u8]
}

/// What step `k` of the walk offers: the repository found at the `k`-th
/// component from the end, if one was, and then that component.
pub open spec fn step_parts(
    path: Seq<ComponentView>,
    found: Seq<Option<GitStatusView>>,
    k: int,
) -> Seq<PartView> {
    let dir = shown(path[path.len() - 1 - k]);
    match found[k] {
        Some(status) => seq![PartView::Git(status), dir],
        None => seq![dir],
    }
}

/// What the first `steps` steps of the walk offer, deepest first.
pub open spec fn offered_upto(
    path: Seq<ComponentView>,
    found: Seq<Option<GitStatusView>>,
    steps: nat,
) -> Seq<PartView>
    decreases steps,
{
    if steps == 0 {
        Seq::empty()
    } else {
        offered_upto(path, found, (steps - 1) as nat) + step_parts(path, found, steps - 1)
    }
}

/// What the whole walk offers, deepest first. `found[k]` is the repository
/// found at the `k`-th component from the end.
pub open spec fn offered(path: Seq<ComponentView>, found: Seq<Option<GitStatusView>>) -> Seq<
    PartView,
> {
    offered_upto(path, found, path.len())
}

/// What `parts` take from the budget together.
pub open spec fn total_cost(parts: Seq<PartView>, conf: WorkDir) -> nat
    decreases parts.len(),
{
    if parts.len() == 0 {
        0
    } else {
        total_cost(parts.drop_last(), conf) + parts.last().cost(conf)
    }
}

/// How many parts from the start of `parts` the budget allows: the most
/// that together cost no more than the whole path may take.
pub open spec fn kept(parts: Seq<PartView>, conf: WorkDir) -> nat
    decreases parts.len(),
{
    if parts.len() == 0 || total_cost(parts, conf) <= conf.path_max_len {
        parts.len()
    } else {
        kept(parts.drop_last(), conf)
    }
}

/// The parts that the walk keeps of what it is offered, deepest first: all
/// of them, or as many as the budget allows and then the marker.
pub open spec fn walked(parts: Seq<PartView>, conf: WorkDir) -> Seq<PartView> {
    let n = kept(parts, conf);
    if n == parts.len() {
        parts
    } else {
        parts.take(n as int).push(PartView::Truncate)
    }
}

/// Where the first part stands that is a component not yet marked, or the
/// length of `parts` where there is none.
pub open spec fn first_component(parts: Seq<PartView>) -> int
    decreases parts.len(),
{
    if parts.len() == 0 {
        0
    } else if parts[0] is Root || parts[0] is Dir {
        0
    } else {
        1 + first_component(parts.drop_first())
    }
}

/// `parts` with the first component marked as the deepest.
pub open spec fn mark_stem(parts: Seq<PartView>) -> Seq<PartView> {
    let i = first_component(parts);
    if i < parts.len() {
        parts.update(i, parts[i].as_stem())
    } else {
        parts
    }
}

/// The chips of `path` in the order in which they are drawn, where
/// `found[k]` is the repository found at the `k`-th component from the end.
pub open spec fn segment(
    path: Seq<ComponentView>,
    found: Seq<Option<GitStatusView>>,
    conf: WorkDir,
) -> Seq<PartView> {
    mark_stem(walked(offered(path, found), conf)).reverse()
}

/// The view of a state that may be missing.
pub open spec fn status_view(status: Option<GitStatus>) -> Option<GitStatusView> {
    match status {
        Some(state) => Some(state@),
        None => None,
    }
}

/// The views of `found`, in order.
pub open spec fn status_views(found: Seq<Option<GitStatus>>) -> Seq<Option<GitStatusView>> {
    found.map_values(|status: Option<GitStatus>| status_view(status))
}

/// What `found` says was found along a path of `n` components: nothing
/// where it does not reach.
pub open spec fn found_along(found: Seq<Option<GitStatusView>>, n: nat) -> Seq<
    Option<GitStatusView>,
> {
    Seq::new(
        n,
        |k: int|
            if k < found.len() {
                found[k]
            } else {
                None
            },
    )
}

/// No repository at any of `n` components.
pub open spec fn nothing_found(n: nat) -> Seq<Option<GitStatusView>> {
    Seq::new(n, |k: int| None)
}

/// What can have been found along `path` under `conf`: nothing where
/// repositories are not looked for, nothing at the directory in which a
/// repository keeps its own files, and only counters of zero where changes
/// are not counted.
pub open spec fn may_be_found(
    path: Seq<ComponentView>,
    found: Seq<Option<GitStatusView>>,
    conf: WorkDir,
) -> bool {
    &&& found.len() == path.len()
    &&& forall|k: int|
        0 <= k < found.len() && (!conf.git.enable || path[path.len() - 1 - k]
            == ComponentView::Normal(git_dir())) ==> #[trigger] found[k] is None
    &&& forall|k: int|
        0 <= k < found.len() && !conf.git.status ==> (#[trigger] found[k] matches Some(status)
            ==> status.is_clean())
}

/// What the first steps offer depends on what was found at those steps only.
pub(crate) proof fn lemma_offered_agrees(
    path: Seq<ComponentView>,
    found: Seq<Option<GitStatusView>>,
    other: Seq<Option<GitStatusView>>,
    steps: nat,
)
    requires
        steps <= found.len(),
        steps <= other.len(),
        forall|k: int| 0 <= k < steps ==> found[k] == other[k],
    ensures
        offered_upto(path, found, steps) == offered_upto(path, other, steps),
    decreases steps,
{
    if steps > 0 {
        lemma_offered_agrees(path, found, other, (steps - 1) as nat);
    }
}

/// What the first steps offer is the start of what more steps offer.
pub(crate) proof fn lemma_offered_prefix(
    path: Seq<ComponentView>,
    found: Seq<Option<GitStatusView>>,
    steps: nat,
    more: nat,
)
    requires
        steps <= more,
    ensures
        offered_upto(path, found, steps).len() <= offered_upto(path, found, more).len(),
        offered_upto(path, found, more).take(offered_upto(path, found, steps).len() as int)
            == offered_upto(path, found, steps),
    decreases more - steps,
{
    if steps < more {
        lemma_offered_prefix(path, found, steps, (more - 1) as nat);
    }
}

/// The cost of `parts` with one more part is their cost and its cost.
pub(crate) proof fn lemma_total_cost_push(parts: Seq<PartView>, part: PartView, conf: WorkDir)
    ensures
        total_cost(parts.push(part), conf) == total_cost(parts, conf) + part.cost(conf),
{
    assert(parts.push(part).drop_last() =~= parts);
}

/// The start of `parts` costs no more than all of them.
proof fn lemma_cost_of_prefix(parts: Seq<PartView>, n: int, conf: WorkDir)
    requires
        0 <= n <= parts.len(),
    ensures
        total_cost(parts.take(n), conf) <= total_cost(parts, conf),
    decreases parts.len(),
{
    if n < parts.len() {
        lemma_cost_of_prefix(parts.drop_last(), n, conf);
        assert(parts.drop_last().take(n) =~= parts.take(n));
    } else {
        assert(parts.take(n) =~= parts);
    }
}

/// The budget keeps `n` parts where the first `n` fit it and one more does
/// not.
pub(crate) proof fn lemma_kept(parts: Seq<PartView>, n: nat, conf: WorkDir)
    requires
        n <= parts.len(),
        total_cost(parts.take(n as int), conf) <= conf.path_max_len,
        n < parts.len() ==> total_cost(parts.take(n as int + 1), conf) > conf.path_max_len,
    ensures
        kept(parts, conf) == n,
    decreases parts.len(),
{
    if n == parts.len() {
        assert(parts.take(n as int) =~= parts);
    } else {
        lemma_cost_of_prefix(parts, n as int + 1, conf);
        let shorter = parts.drop_last();
        assert(shorter.take(n as int) =~= parts.take(n as int));
        if n < shorter.len() {
            assert(shorter.take(n as int + 1) =~= parts.take(n as int + 1));
        }
        lemma_kept(shorter, n, conf);
    }
}

/// The walk offers repositories and components not yet marked, nothing else.
proof fn lemma_offered_kinds(
    path: Seq<ComponentView>,
    found: Seq<Option<GitStatusView>>,
    steps: nat,
)
    ensures
        forall|i: int|
            0 <= i < offered_upto(path, found, steps).len() ==> {
                let part = #[trigger] offered_upto(path, found, steps)[i];
                part is Git || part is Root || part is Dir
            },
    decreases steps,
{
    if steps > 0 {
        lemma_offered_kinds(path, found, (steps - 1) as nat);
    }
}

/// The budget keeps no more parts than there are, and those that it keeps
/// fit it.
proof fn lemma_kept_fits(parts: Seq<PartView>, conf: WorkDir)
    ensures
        kept(parts, conf) <= parts.len(),
        total_cost(parts.take(kept(parts, conf) as int), conf) <= conf.path_max_len,
        kept(parts, conf) == parts.len() <==> total_cost(parts, conf) <= conf.path_max_len,
    decreases parts.len(),
{
    if parts.len() == 0 || total_cost(parts, conf) <= conf.path_max_len {
        assert(parts.take(parts.len() as int) =~= parts);
    } else {
        let shorter = parts.drop_last();
        lemma_kept_fits(shorter, conf);
        assert(shorter.take(kept(shorter, conf) as int) =~= parts.take(kept(shorter, conf) as int));
    }
}

/// Before the first component there is no component, and where it stands
/// there is one.
proof fn lemma_first_component_found(parts: Seq<PartView>)
    ensures
        0 <= first_component(parts) <= parts.len(),
        forall|j: int|
            0 <= j < first_component(parts) ==> !(#[trigger] parts[j] is Root || parts[j] is Dir),
        first_component(parts) < parts.len() ==> {
            let part = parts[first_component(parts)];
            part is Root || part is Dir
        },
    decreases parts.len(),
{
    if parts.len() > 0 && !(parts[0] is Root || parts[0] is Dir) {
        let rest = parts.drop_first();
        lemma_first_component_found(rest);
        assert forall|j: int| 0 <= j < first_component(parts) implies !(#[trigger] parts[j] is Root
            || parts[j] is Dir) by {
            if j > 0 {
                assert(parts[j] == rest[j - 1]);
            }
        }
    }
}

/// What the walk keeps, deepest first, is what it was offered up to some
/// point, and the marker behind it if anything was left out.
proof fn lemma_walked_parts(parts: Seq<PartView>, conf: WorkDir)
    ensures
        ({
            let n = kept(parts, conf) as int;
            let w = walked(parts, conf);
            &&& n <= parts.len()
            &&& forall|i: int| 0 <= i < n ==> #[trigger] w[i] == parts[i]
            &&& total_cost(parts, conf) <= conf.path_max_len ==> n == parts.len() && w == parts
            &&& total_cost(parts, conf) > conf.path_max_len ==> n < parts.len() && w.len() == n
                + 1 && w[n] is Truncate
        }),
{
    lemma_kept_fits(parts, conf);
}

/// A path whose parts fit the budget shows all of them and no marker. One
/// whose parts do not fit shows the marker first and only there, and behind
/// it the deepest parts that fit, each as the walk offered it or marked as
/// the deepest component.
pub proof fn lemma_truncation(
    path: Seq<ComponentView>,
    found: Seq<Option<GitStatusView>>,
    conf: WorkDir,
)
    ensures
        ({
            let all = offered(path, found);
            let shown = segment(path, found, conf);
            &&& total_cost(all, conf) <= conf.path_max_len ==> shown.len() == all.len()
                && forall|i: int| 0 <= i < shown.len() ==> !(#[trigger] shown[i] is Truncate)
            &&& total_cost(all, conf) > conf.path_max_len ==> shown.len() == kept(all, conf) + 1
                && shown[0] is Truncate && forall|i: int|
                0 < i < shown.len() ==> !(#[trigger] shown[i] is Truncate)
            &&& forall|i: int|
                0 <= i < shown.len() && !(#[trigger] shown[i] is Truncate) ==> {
                    let offer = all[shown.len() - 1 - i];
                    shown[i] == offer || shown[i] == offer.as_stem()
                }
        }),
{
    let all = offered(path, found);
    let w = walked(all, conf);
    let marked = mark_stem(w);
    let shown = segment(path, found, conf);
    lemma_walked_parts(all, conf);
    lemma_offered_kinds(path, found, path.len());
    lemma_first_component_found(w);
    // marking changes no marker, and each chip is the part at its place from
    // the end
    assert forall|i: int| 0 <= i < w.len() implies (#[trigger] marked[i] is Truncate <==> w[i]
        is Truncate) && (marked[i] == w[i] || marked[i] == w[i].as_stem()) by {}
    assert forall|i: int| 0 <= i < shown.len() implies #[trigger] shown[i] == marked[shown.len()
        - 1 - i] by {}
}

/// At most one chip is marked as the deepest component. Where any
/// component is shown, one is marked: the last component of the path, and
/// no component is drawn behind it.
pub proof fn lemma_one_stem(
    path: Seq<ComponentView>,
    found: Seq<Option<GitStatusView>>,
    conf: WorkDir,
)
    ensures
        ({
            let shown_parts = segment(path, found, conf);
            &&& forall|i: int, j: int|
                0 <= i < shown_parts.len() && 0 <= j < shown_parts.len() && (
                #[trigger] shown_parts[i]).is_stem() && (#[trigger] shown_parts[j]).is_stem() ==> i
                    == j
            &&& forall|i: int, j: int|
                0 <= i < shown_parts.len() && 0 <= j < shown_parts.len() && (
                #[trigger] shown_parts[i]).is_stem() && (#[trigger] shown_parts[j]).is_component()
                    ==> j <= i
            &&& forall|j: int|
                0 <= j < shown_parts.len() && (#[trigger] shown_parts[j]).is_component()
                    ==> exists|i: int|
                    0 <= i < shown_parts.len() && (#[trigger] shown_parts[i]).is_stem()
            &&& forall|i: int|
                0 <= i < shown_parts.len() && (#[trigger] shown_parts[i]).is_stem() ==> path.len()
                    > 0 && shown_parts[i] == shown(path.last()).as_stem()
        }),
{
    let all = offered(path, found);
    let w = walked(all, conf);
    let marked = mark_stem(w);
    let shown_parts = segment(path, found, conf);
    let at = first_component(w);
    lemma_walked_parts(all, conf);
    lemma_offered_kinds(path, found, path.len());
    lemma_first_component_found(w);
    // each chip is the part at its place from the end
    assert forall|i: int| 0 <= i < shown_parts.len() implies #[trigger] shown_parts[i]
        == marked[shown_parts.len() - 1 - i] by {}
    // where a component is shown, the first component of the walk is marked
    assert forall|j: int|
        0 <= j < shown_parts.len() && (#[trigger] shown_parts[j]).is_component() implies exists|
        i: int,
    | 0 <= i < shown_parts.len() && (#[trigger] shown_parts[i]).is_stem() by {
        assert(shown_parts[shown_parts.len() - 1 - at] == marked[at]);
    }
    // the first component of the walk is what the first step offers last
    assert forall|i: int|
        0 <= i < shown_parts.len() && (#[trigger] shown_parts[i]).is_stem() implies path.len() > 0
        && shown_parts[i] == shown(path.last()).as_stem() by {
        lemma_offered_prefix(path, found, 1, path.len());
        let first = offered_upto(path, found, 1);
        assert(offered_upto(path, found, 0) =~= Seq::<PartView>::empty());
        assert(all[0] == all.take(first.len() as int)[0]);
        if first.len() == 2 && at > 1 {
            assert(!(w[1] is Root || w[1] is Dir));
        }
    }
}

/// The root alone, with no repository at it and room for one character and
/// what is drawn around it, shows as one chip: the root, marked as the
/// deepest component.
pub proof fn lemma_root_alone(found: Seq<Option<GitStatusView>>, conf: WorkDir)
    requires
        found.len() == 1,
        found[0] is None,
        PartView::Root.cost(conf) <= conf.path_max_len,
    ensures
        segment(seq![ComponentView::Root], found, conf) == seq![PartView::RootStem],
{
    let path = seq![ComponentView::Root];
    let all = offered(path, found);
    assert(all =~= seq![PartView::Root]) by {
        assert(all == offered_upto(path, found, 0) + step_parts(path, found, 0));
    }
    assert(total_cost(all, conf) == PartView::Root.cost(conf)) by {
        assert(all.drop_last() =~= Seq::<PartView>::empty());
        assert(total_cost(Seq::<PartView>::empty(), conf) == 0);
    }
}

/// The texts of the parts that stand for components, in order.
pub open spec fn component_texts(parts: Seq<PartView>) -> Seq<Seq<char>>
    decreases parts.len(),
{
    if parts.len() == 0 {
        Seq::empty()
    } else if parts.last().is_component() {
        component_texts(parts.drop_last()).push(parts.last().raw_text())
    } else {
        component_texts(parts.drop_last())
    }
}

/// The texts of two rows of parts, one behind the other, are the texts of
/// the first and then those of the second.
proof fn lemma_texts_add(a: Seq<PartView>, b: Seq<PartView>)
    ensures
        component_texts(a + b) == component_texts(a) + component_texts(b),
    decreases b.len(),
{
    if b.len() > 0 {
        lemma_texts_add(a, b.drop_last());
        assert((a + b).drop_last() =~= a + b.drop_last());
    }
}

/// One part has one text where it stands for a component, and none where it
/// does not.
proof fn lemma_texts_one(part: PartView)
    ensures
        component_texts(seq![part]) == if part.is_component() {
            seq![part.raw_text()]
        } else {
            Seq::<Seq<char>>::empty()
        },
{
    assert(seq![part].drop_last() =~= Seq::<PartView>::empty());
    assert(component_texts(Seq::<PartView>::empty()) =~= Seq::<Seq<char>>::empty());
}

/// The texts of parts in the opposite order are their texts in the opposite
/// order.
proof fn lemma_texts_reverse(parts: Seq<PartView>)
    ensures
        component_texts(parts.reverse()) == component_texts(parts).reverse(),
    decreases parts.len(),
{
    if parts.len() > 0 {
        let last = parts.last();
        let rest = parts.drop_last();
        lemma_texts_reverse(rest);
        assert(parts.reverse() =~= seq![last] + rest.reverse());
        lemma_texts_add(seq![last], rest.reverse());
        lemma_texts_one(last);
    }
}

/// Parts that agree one by one in what they stand for and in their text
/// have the same texts.
proof fn lemma_texts_alike(a: Seq<PartView>, b: Seq<PartView>)
    requires
        a.len() == b.len(),
        forall|i: int|
            0 <= i < a.len() ==> (#[trigger] a[i]).is_component() == b[i].is_component()
                && a[i].raw_text() == b[i].raw_text(),
    ensures
        component_texts(a) == component_texts(b),
    decreases a.len(),
{
    if a.len() > 0 {
        lemma_texts_alike(a.drop_last(), b.drop_last());
    }
}

/// The texts of the last `n` components of `path`, deepest first.
pub open spec fn texts_from_end(path: Seq<ComponentView>, n: nat) -> Seq<Seq<char>> {
    Seq::new(n, |j: int| component_text(path[path.len() - 1 - j]))
}

/// What the first steps of the walk offer has the texts of the last
/// components of the path, deepest first.
proof fn lemma_texts_offered(
    path: Seq<ComponentView>,
    found: Seq<Option<GitStatusView>>,
    steps: nat,
)
    ensures
        component_texts(offered_upto(path, found, steps)) == texts_from_end(path, steps),
    decreases steps,
{
    if steps > 0 {
        let before = (steps - 1) as nat;
        lemma_texts_offered(path, found, before);
        let step = step_parts(path, found, steps - 1);
        let dir = shown(path[path.len() - 1 - (steps - 1)]);
        lemma_texts_add(offered_upto(path, found, before), step);
        lemma_texts_one(dir);
        if let Some(status) = found[steps - 1] {
            let git = PartView::Git(status);
            assert(step =~= seq![git] + seq![dir]);
            lemma_texts_add(seq![git], seq![dir]);
            lemma_texts_one(git);
        }
    }
}

/// The components that are shown are the last components of the path, in
/// the order of the path and each with its whole text; where all parts fit
/// the budget they are all components of the path.
pub proof fn lemma_round_trip(
    path: Seq<ComponentView>,
    found: Seq<Option<GitStatusView>>,
    conf: WorkDir,
)
    ensures
        ({
            let texts = component_texts(segment(path, found, conf));
            &&& texts.len() <= path.len()
            &&& texts == path.skip(path.len() - texts.len()).map_values(
                |c: ComponentView| component_text(c),
            )
            &&& total_cost(offered(path, found), conf) <= conf.path_max_len ==> texts
                == path.map_values(|c: ComponentView| component_text(c))
        }),
{
    let all = offered(path, found);
    let w = walked(all, conf);
    let marked = mark_stem(w);
    let n = kept(all, conf) as int;
    lemma_kept_fits(all, conf);
    lemma_first_component_found(w);
    lemma_texts_reverse(marked);
    lemma_texts_alike(marked, w);
    // what was kept, without the marker
    let kept_parts = all.take(n);
    assert(component_texts(w) == component_texts(kept_parts)) by {
        if n == all.len() {
            assert(kept_parts =~= all);
        } else {
            assert(w.drop_last() =~= kept_parts);
        }
    }
    // its texts start the texts of all that was offered
    lemma_texts_add(kept_parts, all.skip(n));
    assert(kept_parts + all.skip(n) =~= all);
    lemma_texts_offered(path, found, path.len());
    let deepest_first = component_texts(kept_parts);
    assert(deepest_first + component_texts(all.skip(n)) == texts_from_end(path, path.len()));
    assert forall|j: int| 0 <= j < deepest_first.len() implies deepest_first[j] == component_text(
        path[path.len() - 1 - j],
    ) by {
        assert((deepest_first + component_texts(all.skip(n)))[j] == deepest_first[j]);
    }
}

} // verus!
