//! The working directory as a row of chips.

pub mod alias;
pub mod draw;
pub mod git;
pub mod segment;

pub use crate::parts::workdir::segment::Part;

use crate::config::{AliasTable, Style, WorkDir};
use crate::outside::{decode_lossy, path_parent};
use crate::parts::workdir::alias::{best_alias, resolved, text_components};
use crate::parts::workdir::draw::{
    bg_after, git_text, indicator_text, indicators_text, part_bg, part_body, part_style,
    part_text, parts_text, truncated,
};
use crate::parts::workdir::git::{get_status, GitStatus, GitStatusView};
use crate::parts::workdir::segment::{
    first_component, found_along, git_dir, kept, lemma_kept, lemma_offered_agrees,
    lemma_offered_prefix, lemma_total_cost_push, mark_stem, may_be_found, nothing_found, offered,
    offered_upto, part_views, segment, shown, status_view, status_views, step_parts, total_cost,
    walked, PartView, PART_OVERHEAD,
};
use crate::path::{
    component_views, components, path_components, starts_with, Component, ComponentView, DOT,
};
use crate::prompt::{new_part_text, style_text, Prompt};
use crate::text::lemma_concat;
use std::path::Path;
use vstd::prelude::*;
use vstd::string::*;

verus! {

impl Part {
    /// Counts the characters of this part, before any cutting.
    pub fn count_chars(&self, conf: &WorkDir) -> (n: usize)
        ensures
            n == self@.chars(*conf),
    {
        match self {
            Part::Truncate => conf.path_trun.as_str().unicode_len(),
            Part::Root | Part::RootStem => 1,
            Part::Dir(name) | Part::Stem(name) => name.as_str().unicode_len(),
            Part::Git(status) => status.branch.as_str().unicode_len(),
        }
    }

    /// Counts the characters that this part may take.
    pub fn truncated_chars(&self, conf: &WorkDir) -> (n: usize)
        ensures
            n == self@.truncated_chars(*conf),
    {
        let n = self.count_chars(conf);
        if n <= conf.comp_max_len {
            n
        } else {
            conf.comp_max_len
        }
    }
}

/// The part that a component shows as.
fn dir_part(component: &Component) -> (part: Part)
    ensures
        part@ == shown(component@),
{
    match component {
        Component::Root => Part::Root,
        Component::CurDir => {
            proof {
                reveal_strlit(".");
            }
            let name = String::from_str(".");
            assert(name@ =~= seq!['.']);
            Part::Dir(name)
        },
        Component::ParentDir => {
            proof {
                reveal_strlit("..");
            }
            let name = String::from_str("..");
            assert(name@ =~= seq!['.', '.']);
            Part::Dir(name)
        },
        Component::Normal(name) => Part::Dir(decode_lossy(name.as_slice())),
    }
}

/// Whether a component is the directory in which a repository keeps its own
/// files.
fn is_git_dir(component: &Component) -> (yes: bool)
    ensures
        yes == (component@ == ComponentView::Normal(git_dir())),
{
    match component {
        Component::Normal(name) => {
            let yes = name.len() == 4 && name[0] == DOT && name[1] == 0x67 && name[2] == 0x69
                && name[3] == 0x74;
            proof {
                if yes {
                    assert(name@ =~= git_dir());
                }
            }
            yes
        },
        _ => false,
    }
}

/// Tries to add a part. If it does not fit the budget any more, the marker
/// is added in its place and `true` is returned.
fn try_add_part(
    parts: &mut Vec<Part>,
    total_len: &mut usize,
    part: Part,
    conf: &WorkDir,
) -> (full: bool)
    requires
        *old(total_len) <= conf.path_max_len,
        *old(total_len) == total_cost(part_views(old(parts)@), *conf),
    ensures
        full == (*old(total_len) + part@.cost(*conf) > conf.path_max_len),
        full ==> *final(total_len) == *old(total_len) && part_views(final(parts)@) == part_views(
            old(parts)@,
        ).push(PartView::Truncate),
        !full ==> *final(total_len) == *old(total_len) + part@.cost(*conf) && part_views(
            final(parts)@,
        ) == part_views(old(parts)@).push(part@) && *final(total_len) == total_cost(
            part_views(final(parts)@),
            *conf,
        ),
{
    let part_chars = part.truncated_chars(conf);
    let room = conf.path_max_len - *total_len;
    let ghost before = part_views(parts@);
    if room < PART_OVERHEAD || part_chars > room - PART_OVERHEAD {
        parts.push(Part::Truncate);
        true
    } else {
        let ghost view = part@;
        parts.push(part);
        *total_len = *total_len + PART_OVERHEAD + part_chars;
        assert(part_views(parts@) =~= before.push(view));
        proof {
            lemma_total_cost_push(before, view, *conf);
        }
        false
    }
}

/// Where the walk stops: of what was offered so far all was kept, and the
/// next part, the repository found at this step or the component itself,
/// does not fit. The walk then keeps what it has and the marker, whatever
/// lies above.
proof fn lemma_walk_stops(
    path: Seq<ComponentView>,
    found: Seq<Option<GitStatusView>>,
    here: Option<GitStatusView>,
    above: Seq<Option<GitStatusView>>,
    conf: WorkDir,
)
    requires
        found.len() < path.len(),
        above.len() == path.len() - found.len() - 1,
        total_cost(offered_upto(path, found, found.len()), conf) <= conf.path_max_len,
        total_cost(
            offered_upto(path, found, found.len()) + step_parts(
                path,
                found.push(here),
                found.len() as int,
            ),
            conf,
        ) > conf.path_max_len,
    ensures
        ({
            let sofar = offered_upto(path, found, found.len());
            walked(offered(path, found.push(here) + above), conf) == match here {
                Some(status) => if total_cost(sofar, conf) + PartView::Git(status).cost(conf)
                    > conf.path_max_len {
                    sofar.push(PartView::Truncate)
                } else {
                    sofar.push(PartView::Git(status)).push(PartView::Truncate)
                },
                None => sofar.push(PartView::Truncate),
            }
        }),
{
    let steps = found.len();
    let all = found.push(here) + above;
    let sofar = offered_upto(path, found, steps);
    let dir = shown(path[path.len() - 1 - steps]);
    let whole = offered(path, all);
    let m = sofar.len() as int;
    // the walk is offered what it has and what this step offers, and more
    lemma_offered_agrees(path, found, all, steps);
    lemma_offered_agrees(path, found.push(here), all, (steps + 1) as nat);
    lemma_offered_agrees(path, found, found.push(here), steps);
    lemma_offered_prefix(path, all, (steps + 1) as nat, path.len());
    match here {
        Some(status) => {
            let git = PartView::Git(status);
            lemma_total_cost_push(sofar, git, conf);
            lemma_total_cost_push(sofar.push(git), dir, conf);
            assert(whole.take(m) =~= sofar);
            assert(whole.take(m + 1) =~= sofar.push(git));
            if total_cost(sofar, conf) + git.cost(conf) > conf.path_max_len {
                lemma_kept(whole, m as nat, conf);
            } else {
                lemma_kept(whole, (m + 1) as nat, conf);
            }
        },
        None => {
            assert(whole.take(m) =~= sofar);
            lemma_kept(whole, m as nat, conf);
        },
    }
}

/// One step of the walk: offers the repository found at `component`, if one
/// was, and then the component itself. Returns `true` where one of them did
/// not fit, and the walk is over.
fn walk_step(
    parts: &mut Vec<Part>,
    total_len: &mut usize,
    status: Option<GitStatus>,
    component: &Component,
    conf: &WorkDir,
    Ghost(path): Ghost<Seq<ComponentView>>,
    Ghost(found): Ghost<Seq<Option<GitStatusView>>>,
    Ghost(above): Ghost<Seq<Option<GitStatusView>>>,
) -> (full: bool)
    requires
        found.len() < path.len(),
        above.len() == path.len() - found.len() - 1,
        component@ == path[path.len() - 1 - found.len()],
        part_views(old(parts)@) == offered_upto(path, found, found.len()),
        *old(total_len) == total_cost(part_views(old(parts)@), *conf),
        *old(total_len) <= conf.path_max_len,
    ensures
        full ==> part_views(final(parts)@) == walked(
            offered(path, found.push(status_view(status)) + above),
            *conf,
        ),
        !full ==> part_views(final(parts)@) == offered_upto(
            path,
            found.push(status_view(status)),
            found.len() + 1,
        ),
        !full ==> *final(total_len) == total_cost(part_views(final(parts)@), *conf),
        !full ==> *final(total_len) <= conf.path_max_len,
{
    let ghost sofar = part_views(parts@);
    let ghost here = status_view(status);
    let ghost dir = shown(component@);
    proof {
        lemma_offered_agrees(path, found, found.push(here), found.len());
    }
    let mut full = false;
    if let Some(state) = status {
        let ghost git = PartView::Git(state@);
        full = try_add_part(parts, total_len, Part::Git(state), conf);
        proof {
            lemma_total_cost_push(sofar, git, *conf);
            if full {
                lemma_total_cost_push(sofar.push(git), dir, *conf);
                assert(sofar + seq![git, dir] =~= sofar.push(git).push(dir));
                lemma_walk_stops(path, found, here, above, *conf);
            }
        }
    }
    if !full {
        let ghost kept_parts = part_views(parts@);
        full = try_add_part(parts, total_len, dir_part(component), conf);
        proof {
            lemma_total_cost_push(kept_parts, dir, *conf);
            assert(sofar + step_parts(path, found.push(here), found.len() as int)
                =~= kept_parts.push(dir));
            if full {
                lemma_walk_stops(path, found, here, above, *conf);
            }
        }
    }
    full
}

/// Where the first component of `parts` stands: behind parts that are none,
/// at a part that is one or at the end.
proof fn lemma_first_component(parts: Seq<PartView>, at: int)
    requires
        0 <= at <= parts.len(),
        forall|j: int| 0 <= j < at ==> !(parts[j] is Root || parts[j] is Dir),
        at < parts.len() ==> parts[at] is Root || parts[at] is Dir,
    ensures
        first_component(parts) == at,
    decreases parts.len(),
{
    if parts.len() > 0 && at > 0 {
        lemma_first_component(parts.drop_first(), at - 1);
    }
}

/// Marks the first component among `parts` as the deepest.
fn mark_first_component(parts: &mut Vec<Part>)
    ensures
        part_views(final(parts)@) == mark_stem(part_views(old(parts)@)),
{
    let ghost before = part_views(parts@);
    let mut i: usize = 0;
    while i < parts.len()
        invariant
            i <= parts@.len(),
            before == part_views(old(parts)@),
            part_views(parts@) == before,
            forall|j: int| 0 <= j < i ==> !(before[j] is Root || before[j] is Dir),
        decreases parts@.len() - i,
    {
        let mut taken = Part::RootStem;
        std::mem::swap(&mut parts[i], &mut taken);
        match taken {
            Part::Root => {
                proof {
                    lemma_first_component(before, i as int);
                }
                return ;
            },
            Part::Dir(name) => {
                let mut stem = Part::Stem(name);
                std::mem::swap(&mut parts[i], &mut stem);
                proof {
                    lemma_first_component(before, i as int);
                }
                return ;
            },
            other => {
                let mut back = other;
                std::mem::swap(&mut parts[i], &mut back);
            },
        }
        i += 1;
    }
    proof {
        lemma_first_component(before, before.len() as int);
    }
}

/// The parts in the opposite order.
fn reversed(parts: Vec<Part>) -> (turned: Vec<Part>)
    ensures
        part_views(turned@) == part_views(parts@).reverse(),
{
    let ghost before = part_views(parts@);
    let mut parts = parts;
    let mut turned: Vec<Part> = Vec::new();
    while parts.len() > 0
        invariant
            parts@.len() + turned@.len() == before.len(),
            part_views(parts@) == before.take(parts@.len() as int),
            forall|j: int|
                0 <= j < turned@.len() ==> part_views(turned@)[j] == before[before.len() - 1 - j],
        decreases parts@.len(),
    {
        let ghost left = part_views(parts@);
        let ghost done = part_views(turned@);
        match parts.pop() {
            Some(part) => {
                assert(part@ == left[left.len() - 1]);
                turned.push(part);
                assert forall|j: int| 0 <= j < turned@.len() implies part_views(turned@)[j]
                    == before[before.len() - 1 - j] by {
                    if j < done.len() {
                        assert(part_views(turned@)[j] == done[j]);
                    }
                }
            },
            None => {},
        }
    }
    turned
}

/// The parts of a walk in the order in which they are drawn, with the
/// deepest component marked.
fn finish_walk(parts: Vec<Part>) -> (drawn: Vec<Part>)
    ensures
        part_views(drawn@) == mark_stem(part_views(parts@)).reverse(),
{
    let mut parts = parts;
    // Mark the deepest component
    mark_first_component(&mut parts);
    // Turn the parts into the order in which they are drawn
    reversed(parts)
}

/// Turns a path into its chips, given what was found on the way up:
/// `found[k]` is the state of the repository at the `k`-th component from
/// the end of `mod_path`, or nothing where there is none. Where `found` is
/// shorter than the path, nothing was found at the components that it does
/// not reach; what it holds beyond the path plays no part.
pub fn segment_path(
    mod_path: &[Component],
    found: Vec<Option<GitStatus>>,
    conf: &WorkDir,
) -> (parts: Vec<Part>)
    ensures
        part_views(parts@) == segment(
            component_views(mod_path@),
            found_along(status_views(found@), mod_path@.len()),
            *conf,
        ),
{
    let ghost shown_path = component_views(mod_path@);
    let n = mod_path.len();
    let ghost handed = status_views(found@);
    let ghost given = found_along(handed, n as nat);
    let mut found = found;
    // The parts, deepest first
    let mut parts: Vec<Part> = Vec::new();
    let mut total_len: usize = 0;
    let mut steps: usize = 0;
    let mut full = false;
    while steps < n && !full
        invariant
            n == mod_path@.len(),
            shown_path == component_views(mod_path@),
            given == found_along(handed, n as nat),
            steps <= n,
            found@.len() == handed.len(),
            !full ==> forall|k: int|
                steps <= k < found@.len() ==> status_view(#[trigger] found@[k]) == handed[k],
            !full ==> part_views(parts@) == offered_upto(
                shown_path,
                given.take(steps as int),
                steps as nat,
            ),
            !full ==> total_len == total_cost(part_views(parts@), *conf),
            !full ==> total_len <= conf.path_max_len,
            full ==> part_views(parts@) == walked(offered(shown_path, given), *conf),
        decreases n - steps, if full {
                0int
            } else {
                1int
            },
    {
        let mut status: Option<GitStatus> = None;
        if steps < found.len() {
            std::mem::swap(&mut found[steps], &mut status);
        }
        proof {
            assert(status_view(status) == given[steps as int]);
            assert forall|k: int| steps < k < found@.len() implies status_view(
                #[trigger] found@[k],
            ) == handed[k] by {}
            assert(given.take(steps as int).push(given[steps as int]) + given.skip(steps + 1)
                =~= given);
            assert(given.take(steps as int).push(given[steps as int]) =~= given.take(steps + 1));
        }
        full = walk_step(
            &mut parts,
            &mut total_len,
            status,
            &mod_path[n - 1 - steps],
            conf,
            Ghost(shown_path),
            Ghost(given.take(steps as int)),
            Ghost(given.skip(steps + 1)),
        );
        if !full {
            steps += 1;
        }
    }
    proof {
        if !full {
            assert(given.take(steps as int) =~= given);
        }
    }
    finish_walk(parts)
}

/// Turns a path into its chips. `path` is where the directory lies on disk;
/// `mod_path` is how it is shown, which aliases may have changed. The
/// components of `mod_path` are walked from the last to the first, and `path`
/// is walked upwards beside them: where repositories are looked for, each
/// directory on the way is asked for one, except a directory that is itself
/// where a repository keeps its own files, and except above the root of
/// `path`. What a directory answers is not known beforehand, so the chips
/// are those of some answers that the configuration allows; with
/// repositories switched off they are those of no answer at all.
pub fn process_path(path: &Path, mod_path: &[Component], conf: &WorkDir) -> (parts: Vec<Part>)
    ensures
        exists|found: Seq<Option<GitStatusView>>|
            may_be_found(component_views(mod_path@), found, *conf) && part_views(parts@)
                == #[trigger] segment(component_views(mod_path@), found, *conf),
        !conf.git.enable ==> part_views(parts@) == segment(
            component_views(mod_path@),
            nothing_found(mod_path@.len()),
            *conf,
        ),
{
    let ghost shown_path = component_views(mod_path@);
    let n = mod_path.len();
    // The parts, deepest first
    let mut parts: Vec<Part> = Vec::new();
    let mut total_len: usize = 0;
    let mut current_path: Option<&Path> = Some(path);
    let mut steps: usize = 0;
    let mut full = false;
    let ghost mut found: Seq<Option<GitStatusView>> = Seq::empty();
    while steps < n && !full
        invariant
            n == mod_path@.len(),
            shown_path == component_views(mod_path@),
            steps <= n,
            !full ==> found.len() == steps,
            full ==> found.len() == n,
            forall|k: int|
                0 <= k < found.len() && (!conf.git.enable || shown_path[n - 1 - k]
                    == ComponentView::Normal(git_dir())) ==> #[trigger] found[k] is None,
            forall|k: int|
                0 <= k < found.len() && !conf.git.status ==> (#[trigger] found[k] matches Some(
                    status,
                ) ==> status.is_clean()),
            !full ==> part_views(parts@) == offered_upto(shown_path, found, steps as nat),
            !full ==> total_len == total_cost(part_views(parts@), *conf),
            !full ==> total_len <= conf.path_max_len,
            full ==> part_views(parts@) == walked(offered(shown_path, found), *conf),
        decreases n - steps, if full {
                0int
            } else {
                1int
            },
    {
        let component = &mod_path[n - 1 - steps];
        // Show the repository at this directory, if there is one
        let mut status: Option<GitStatus> = None;
        if conf.git.enable && !is_git_dir(component) {
            if let Some(full_path) = current_path {
                if let Ok(Some(state)) = get_status(full_path, conf.git.status) {
                    status = Some(state);
                }
            }
        }
        let ghost here = status_view(status);
        let ghost above = nothing_found((n - steps - 1) as nat);
        full = walk_step(
            &mut parts,
            &mut total_len,
            status,
            component,
            conf,
            Ghost(shown_path),
            Ghost(found),
            Ghost(above),
        );
        proof {
            found = if full {
                found.push(here) + above
            } else {
                found.push(here)
            };
        }
        if !full {
            current_path = match current_path {
                Some(full_path) => path_parent(full_path),
                None => None,
            };
            steps += 1;
        }
    }
    proof {
        if !conf.git.enable {
            assert(found =~= nothing_found(n as nat));
        }
    }
    let parts = finish_walk(parts);
    assert(part_views(parts@) == segment(shown_path, found, *conf));
    parts
}

/// Shows `path` under the alias that wins for it: the components of the
/// replacement in place of those of the prefix. Where no alias applies the
/// path stays as it is.
pub fn apply_aliases(path: &[Component], aliases: &AliasTable) -> (shown: Vec<Component>)
    ensures
        component_views(shown@) == resolved(component_views(path@), aliases@),
{
    let ghost whole = component_views(path@);
    let mut longest_match: usize = 0;
    let mut best: Option<usize> = None;
    let mut taken: usize = 0;
    let mut i: usize = 0;
    while i < aliases.len()
        invariant
            i <= aliases@.len(),
            whole == component_views(path@),
            match best {
                Some(b) => best_alias(whole, aliases@, i as nat) == Some(b as int) && b < i
                    && longest_match == aliases@[b as int].0.len() && taken == text_components(
                    aliases@[b as int].0,
                ).len() && taken <= path@.len(),
                None => best_alias(whole, aliases@, i as nat) is None && longest_match == 0,
            },
        decreases aliases@.len() - i,
    {
        let prefix = aliases.prefix(i);
        let len = prefix.unicode_len();
        if len > longest_match {
            let prefix_path = components(prefix.as_bytes());
            if starts_with(path, prefix_path.as_slice()) {
                best = Some(i);
                longest_match = len;
                taken = prefix_path.len();
            }
        }
        i += 1;
    }
    let mut shown: Vec<Component> = Vec::new();
    let mut from: usize = 0;
    match best {
        Some(b) => {
            shown = components(aliases.value(b).as_bytes());
            from = taken;
        },
        None => {},
    }
    let ghost start = component_views(shown@);
    let mut k: usize = from;
    while k < path.len()
        invariant
            from <= k <= path@.len(),
            whole == component_views(path@),
            component_views(shown@) == start + whole.subrange(from as int, k as int),
        decreases path@.len() - k,
    {
        let ghost before = component_views(shown@);
        shown.push(path[k].duplicate());
        assert(component_views(shown@) =~= before.push(whole[k as int]));
        k += 1;
    }
    shown
}

/// Draws `text`, cut to `len` characters with the marker `trun` at its end
/// where it is longer.
fn write_truncated_str(p: &mut Prompt, text: &str, trun: &str, len: usize)
    ensures
        final(p).conf() == old(p).conf(),
        final(p).last_background() == old(p).last_background(),
        final(p).rendered() == old(p).rendered() + truncated(text@, trun@, len as nat),
{
    let ghost before = p.rendered();
    if text.unicode_len() > len {
        let marker_len = trun.unicode_len();
        let n = if marker_len <= len {
            len - marker_len
        } else {
            0
        };
        p.emit_text(text.substring_char(0, n));
        p.emit_text(trun);
        proof {
            lemma_concat(before, text@.take(n as int), trun@);
        }
    } else {
        p.emit_text(text);
    }
}

/// Draws the mark of one counter, where the counter is not zero.
fn write_indicator(p: &mut Prompt, count: u32, sty: Style, mark: &str)
    requires
        old(p).last_background() is Some,
    ensures
        final(p).conf() == old(p).conf(),
        final(p).last_background() == old(p).last_background(),
        final(p).rendered() == old(p).rendered() + indicator_text(
            old(p).last_background()->0,
            count,
            sty,
            mark@,
        ),
{
    let ghost before = p.rendered();
    if count != 0 {
        p.style(sty);
        p.emit_text(mark);
        proof {
            lemma_concat(before, style_text(p.last_background(), sty), mark@);
        }
    }
}

/// Draws the marks of the counters that are not zero.
fn write_indicators(p: &mut Prompt, status: &GitStatus)
    requires
        old(p).last_background() == Some(old(p).conf().work_dir.git.bg),
    ensures
        final(p).conf() == old(p).conf(),
        final(p).last_background() == old(p).last_background(),
        final(p).rendered() == old(p).rendered() + indicators_text(
            status@,
            old(p).conf().work_dir,
        ),
{
    let ghost before = p.rendered();
    let ghost git = p.conf().work_dir.git;
    let ahead = p.conf().work_dir.git.ahead.clone();
    let ahead_sty = p.conf().work_dir.git.ahead_sty;
    write_indicator(p, status.commits_ahead, ahead_sty, ahead.as_str());
    let ghost one = indicator_text(git.bg, status.commits_ahead, git.ahead_sty, git.ahead@);
    let behind = p.conf().work_dir.git.behind.clone();
    let behind_sty = p.conf().work_dir.git.behind_sty;
    write_indicator(p, status.commits_behind, behind_sty, behind.as_str());
    let ghost second = indicator_text(git.bg, status.commits_behind, git.behind_sty, git.behind@);
    let ghost two = one + second;
    proof {
        lemma_concat(before, one, second);
    }
    let conflict = p.conf().work_dir.git.conflict.clone();
    let conflict_sty = p.conf().work_dir.git.conflict_sty;
    write_indicator(p, status.conflicts, conflict_sty, conflict.as_str());
    let ghost third = indicator_text(git.bg, status.conflicts, git.conflict_sty, git.conflict@);
    let ghost three = two + third;
    proof {
        lemma_concat(before, two, third);
    }
    let index = p.conf().work_dir.git.index.clone();
    let index_sty = p.conf().work_dir.git.index_sty;
    write_indicator(p, status.index_changes, index_sty, index.as_str());
    let ghost fourth = indicator_text(git.bg, status.index_changes, git.index_sty, git.index@);
    let ghost four = three + fourth;
    proof {
        lemma_concat(before, three, fourth);
    }
    let wt = p.conf().work_dir.git.wt.clone();
    let wt_sty = p.conf().work_dir.git.wt_sty;
    write_indicator(p, status.wt_changes, wt_sty, wt.as_str());
    let ghost fifth = indicator_text(git.bg, status.wt_changes, git.wt_sty, git.wt@);
    let ghost five = four + fifth;
    proof {
        lemma_concat(before, four, fifth);
    }
    let untracked = p.conf().work_dir.git.untracked.clone();
    let untracked_sty = p.conf().work_dir.git.untracked_sty;
    write_indicator(p, status.untracked, untracked_sty, untracked.as_str());
    let ghost sixth = indicator_text(
        git.bg,
        status.untracked,
        git.untracked_sty,
        git.untracked@,
    );
    proof {
        lemma_concat(before, five, sixth);
    }
}

/// Draws what stands on the chip of a repository.
fn write_git(p: &mut Prompt, status: &GitStatus)
    requires
        old(p).last_background() == Some(old(p).conf().work_dir.git.bg),
    ensures
        final(p).conf() == old(p).conf(),
        final(p).last_background() == old(p).last_background(),
        final(p).rendered() == old(p).rendered() + git_text(status@, old(p).conf().work_dir),
{
    let ghost before = p.rendered();
    let ghost conf = p.conf().work_dir;
    let prefix = p.conf().work_dir.git.prefix.clone();
    let comp_trun = p.conf().work_dir.comp_trun.clone();
    let comp_max_len = p.conf().work_dir.comp_max_len;
    p.emit_text(prefix.as_str());
    write_truncated_str(p, status.branch.as_str(), comp_trun.as_str(), comp_max_len);
    let ghost branch = truncated(status@.branch, conf.comp_trun@, conf.comp_max_len as nat);
    let ghost name = conf.git.prefix@ + branch;
    proof {
        lemma_concat(before, conf.git.prefix@, branch);
    }
    if !status.is_clean_and_up_to_date() {
        let separator = p.conf().work_dir.git.separator.clone();
        p.emit_text(separator.as_str());
        write_indicators(p, status);
        proof {
            let marks = indicators_text(status@, conf);
            lemma_concat(before + name, conf.git.separator@, marks);
            lemma_concat(before, name, conf.git.separator@ + marks);
        }
    } else {
        proof {
            lemma_concat(before, name, Seq::<char>::empty());
        }
    }
}

/// Draws the start of a chip on `bg` and selects `sty` on it.
fn begin_chip(p: &mut Prompt, bg: u8, sty: Style)
    ensures
        final(p).conf() == old(p).conf(),
        final(p).last_background() == Some(bg),
        final(p).rendered() == old(p).rendered() + (new_part_text(old(p).last_background(), bg)
            + style_text(Some(bg), sty)),
{
    let ghost before = p.rendered();
    let ghost last_bg = p.last_background();
    p.new_part(bg);
    p.style(sty);
    proof {
        lemma_concat(before, new_part_text(last_bg, bg), style_text(Some(bg), sty));
    }
}

impl Part {
    /// Draws the part as the next chip of the prompt.
    pub fn write(&self, p: &mut Prompt)
        ensures
            final(p).conf() == old(p).conf(),
            final(p).last_background() == Some(part_bg(self@, old(p).conf().work_dir)),
            final(p).rendered() == old(p).rendered() + part_text(
                old(p).last_background(),
                self@,
                old(p).conf().work_dir,
            ),
    {
        let ghost before = p.rendered();
        let ghost last_bg = p.last_background();
        let ghost conf = p.conf().work_dir;
        let ghost chip = new_part_text(last_bg, part_bg(self@, conf)) + style_text(
            Some(part_bg(self@, conf)),
            part_style(self@, conf),
        );
        match self {
            Part::Truncate => {
                let bg = p.conf().work_dir.path_trun_bg;
                let sty = p.conf().work_dir.path_trun_sty;
                let path_trun = p.conf().work_dir.path_trun.clone();
                begin_chip(p, bg, sty);
                p.emit_text(path_trun.as_str());
            },
            Part::Root => {
                proof {
                    reveal_strlit("/");
                }
                let bg = p.conf().work_dir.dir_bg;
                let sty = p.conf().work_dir.dir_sty;
                begin_chip(p, bg, sty);
                p.emit_text("/");
            },
            Part::RootStem => {
                proof {
                    reveal_strlit("/");
                }
                let bg = p.conf().work_dir.base_bg;
                let sty = p.conf().work_dir.base_sty;
                begin_chip(p, bg, sty);
                p.emit_text("/");
            },
            Part::Dir(d) => {
                let bg = p.conf().work_dir.dir_bg;
                let sty = p.conf().work_dir.dir_sty;
                let comp_trun = p.conf().work_dir.comp_trun.clone();
                let comp_max_len = p.conf().work_dir.comp_max_len;
                begin_chip(p, bg, sty);
                write_truncated_str(p, d.as_str(), comp_trun.as_str(), comp_max_len);
            },
            Part::Stem(d) => {
                let bg = p.conf().work_dir.base_bg;
                let sty = p.conf().work_dir.base_sty;
                let comp_trun = p.conf().work_dir.comp_trun.clone();
                let comp_max_len = p.conf().work_dir.comp_max_len;
                begin_chip(p, bg, sty);
                write_truncated_str(p, d.as_str(), comp_trun.as_str(), comp_max_len);
            },
            Part::Git(s) => {
                let bg = p.conf().work_dir.git.bg;
                let sty = p.conf().work_dir.git.sty;
                begin_chip(p, bg, sty);
                write_git(p, s);
            },
        }
        proof {
            lemma_concat(before, chip, part_body(self@, conf));
        }
    }
}

/// Draws the parts one after the other.
pub fn print_parts(parts: &[Part], p: &mut Prompt)
    ensures
        final(p).conf() == old(p).conf(),
        final(p).last_background() == bg_after(
            old(p).last_background(),
            part_views(parts@),
            old(p).conf().work_dir,
        ),
        final(p).rendered() == old(p).rendered() + parts_text(
            old(p).last_background(),
            part_views(parts@),
            old(p).conf().work_dir,
        ),
{
    let ghost before = p.rendered();
    let ghost last_bg = p.last_background();
    let ghost conf = p.conf().work_dir;
    let ghost views = part_views(parts@);
    let mut i: usize = 0;
    while i < parts.len()
        invariant
            i <= parts@.len(),
            views == part_views(parts@),
            p.conf() == old(p).conf(),
            conf == p.conf().work_dir,
            p.last_background() == bg_after(last_bg, views.take(i as int), conf),
            p.rendered() == before + parts_text(last_bg, views.take(i as int), conf),
        decreases parts@.len() - i,
    {
        let ghost drawn = parts_text(last_bg, views.take(i as int), conf);
        let ghost bg = p.last_background();
        parts[i].write(p);
        proof {
            let next = views.take(i + 1);
            assert(next.drop_last() =~= views.take(i as int));
            lemma_concat(before, drawn, part_text(bg, next.last(), conf));
        }
        i += 1;
    }
    assert(views.take(i as int) =~= views);
}

/// The chips of the directory spelled `path`, where `found[k]` is the
/// repository found at the `k`-th component from the end of the path as it
/// is shown.
pub open spec fn work_dir_parts(
    path: Seq<u8>,
    found: Seq<Option<GitStatusView>>,
    conf: WorkDir,
) -> Seq<PartView> {
    segment(resolved(path_components(path), conf.aliases@), found, conf)
}

/// Draws the working directory. `dir` is the directory, by which it is
/// found on disk; `spelling` is the same path as bytes, by which it is
/// shown. The path is shown under its alias, cut to the budget, and with
/// the repositories that were found on the way up from `dir`.
pub fn work_dir(p: &mut Prompt, dir: &Path, spelling: &[u8])
    ensures
        final(p).conf() == old(p).conf(),
        exists|found: Seq<Option<GitStatusView>>|
            #![trigger work_dir_parts(spelling@, found, old(p).conf().work_dir)]
            {
                &&& may_be_found(
                    resolved(path_components(spelling@), old(p).conf().work_dir.aliases@),
                    found,
                    old(p).conf().work_dir,
                )
                &&& final(p).last_background() == bg_after(
                    old(p).last_background(),
                    work_dir_parts(spelling@, found, old(p).conf().work_dir),
                    old(p).conf().work_dir,
                )
                &&& final(p).rendered() == old(p).rendered() + parts_text(
                    old(p).last_background(),
                    work_dir_parts(spelling@, found, old(p).conf().work_dir),
                    old(p).conf().work_dir,
                )
            },
        !old(p).conf().work_dir.git.enable ==> final(p).rendered() == old(p).rendered()
            + parts_text(
            old(p).last_background(),
            work_dir_parts(
                spelling@,
                nothing_found(
                    resolved(path_components(spelling@), old(p).conf().work_dir.aliases@).len(),
                ),
                old(p).conf().work_dir,
            ),
            old(p).conf().work_dir,
        ),
{
    let spelled = components(spelling);
    let mod_path = apply_aliases(spelled.as_slice(), &p.conf().work_dir.aliases);
    let parts = process_path(dir, mod_path.as_slice(), &p.conf().work_dir);
    proof {
        let conf = p.conf().work_dir;
        let found = choose|found: Seq<Option<GitStatusView>>|
            may_be_found(component_views(mod_path@), found, conf) && part_views(parts@)
                == #[trigger] segment(component_views(mod_path@), found, conf);
        assert(part_views(parts@) == work_dir_parts(spelling@, found, conf));
    }
    print_parts(parts.as_slice(), p);
}

} // verus!
