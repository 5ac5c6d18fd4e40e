//! What the chips of the working directory look like.

use crate::config::{Style, WorkDir};
use crate::parts::workdir::git::GitStatusView;
use crate::parts::workdir::segment::PartView;
use crate::prompt::{new_part_text, style_text};
use vstd::prelude::*;

verus! {

/// How many characters of a text are kept before the marker `trun`, where
/// the text is longer than `len`: as many as leave room for the marker, or
/// none where the marker alone is as long as `len` or longer.
pub open spec fn kept_chars(trun: Seq<char>, len: nat) -> nat {
    if trun.len() <= len {
        (len - trun.len()) as nat
    } else {
        0
    }
}

/// `text` as a chip shows it: whole where it has no more than `len`
/// characters, else its start and the marker `trun`.
pub open spec fn truncated(text: Seq<char>, trun: Seq<char>, len: nat) -> Seq<char> {
    if text.len() > len {
        text.take(kept_chars(trun, len) as int) + trun
    } else {
        text
    }
}

/// A text that is too long for a chip is shown as its start and the marker,
/// and where the marker is no longer than a chip may be, as exactly as many
/// characters as a chip may have. A text that is short enough is shown
/// whole.
pub proof fn lemma_truncated_len(text: Seq<char>, trun: Seq<char>, len: nat)
    ensures
        text.len() <= len ==> truncated(text, trun, len) == text,
        text.len() > len && trun.len() <= len ==> truncated(text, trun, len).len() == len
            && truncated(text, trun, len) == text.take(len - trun.len()) + trun,
        text.len() > len && trun.len() > len ==> truncated(text, trun, len) == trun,
{
}

/// The mark of one counter, in its style, where the counter is not zero.
pub open spec fn indicator_text(bg: u8, count: u32, sty: Style, mark: Seq<char>) -> Seq<char> {
    if count != 0 {
        style_text(Some(bg), sty) + mark
    } else {
        Seq::empty()
    }
}

/// The marks of the counters that are not zero: ahead, behind, conflicts,
/// index, work tree, untracked, in this order.
pub open spec fn indicators_text(status: GitStatusView, conf: WorkDir) -> Seq<char> {
    let git = conf.git;
    indicator_text(git.bg, status.commits_ahead, git.ahead_sty, git.ahead@) + indicator_text(
        git.bg,
        status.commits_behind,
        git.behind_sty,
        git.behind@,
    ) + indicator_text(git.bg, status.conflicts, git.conflict_sty, git.conflict@) + indicator_text(
        git.bg,
        status.index_changes,
        git.index_sty,
        git.index@,
    ) + indicator_text(git.bg, status.wt_changes, git.wt_sty, git.wt@) + indicator_text(
        git.bg,
        status.untracked,
        git.untracked_sty,
        git.untracked@,
    )
}

/// What stands on the chip of a repository: the prefix, the branch, and
/// where a counter is not zero, the separator and the marks.
pub open spec fn git_text(status: GitStatusView, conf: WorkDir) -> Seq<char> {
    conf.git.prefix@ + truncated(status.branch, conf.comp_trun@, conf.comp_max_len as nat)
        + if status.is_clean() {
        Seq::<char>::empty()
    } else {
        conf.git.separator@ + indicators_text(status, conf)
    }
}

/// The background of the chip of `part`.
pub open spec fn part_bg(part: PartView, conf: WorkDir) -> u8 {
    match part {
        PartView::Truncate => conf.path_trun_bg,
        PartView::Root | PartView::Dir(_) => conf.dir_bg,
        PartView::RootStem | PartView::Stem(_) => conf.base_bg,
        PartView::Git(_) => conf.git.bg,
    }
}

/// The style in which the chip of `part` starts.
pub open spec fn part_style(part: PartView, conf: WorkDir) -> Style {
    match part {
        PartView::Truncate => conf.path_trun_sty,
        PartView::Root | PartView::Dir(_) => conf.dir_sty,
        PartView::RootStem | PartView::Stem(_) => conf.base_sty,
        PartView::Git(_) => conf.git.sty,
    }
}

/// What stands on the chip of `part`.
pub open spec fn part_body(part: PartView, conf: WorkDir) -> Seq<char> {
    match part {
        PartView::Truncate => conf.path_trun@,
        PartView::Root | PartView::RootStem => seq!['/'],
        PartView::Dir(name) | PartView::Stem(name) => truncated(
            name,
            conf.comp_trun@,
            conf.comp_max_len as nat,
        ),
        PartView::Git(status) => git_text(status, conf),
    }
}

/// What draws `part` behind a chip on `last_bg`, or as the first chip: the
/// start of a chip on its background, its style, and what stands on it.
pub open spec fn part_text(last_bg: Option<u8>, part: PartView, conf: WorkDir) -> Seq<char> {
    new_part_text(last_bg, part_bg(part, conf)) + style_text(
        Some(part_bg(part, conf)),
        part_style(part, conf),
    ) + part_body(part, conf)
}

/// The background of the chip drawn last, after `parts` were drawn behind a
/// chip on `last_bg`.
pub open spec fn bg_after(last_bg: Option<u8>, parts: Seq<PartView>, conf: WorkDir) -> Option<u8> {
    if parts.len() == 0 {
        last_bg
    } else {
        Some(part_bg(parts.last(), conf))
    }
}

/// What draws `parts` one after the other behind a chip on `last_bg`.
pub open spec fn parts_text(last_bg: Option<u8>, parts: Seq<PartView>, conf: WorkDir) -> Seq<char>
    decreases parts.len(),
{
    if parts.len() == 0 {
        Seq::empty()
    } else {
        parts_text(last_bg, parts.drop_last(), conf) + part_text(
            bg_after(last_bg, parts.drop_last(), conf),
            parts.last(),
            conf,
        )
    }
}

} // verus!
