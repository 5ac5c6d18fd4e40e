//! The branch of the repository that the current directory lies in.

use crate::config::WorkDirGit;
use crate::outside::discover_repository;
use crate::parts::workdir::git::{branch_label, read_head, Head, HeadView};
use crate::prompt::{new_part_text, style_text, Prompt};
use crate::text::lemma_concat;
use vstd::prelude::*;

verus! {

/// What draws the branch behind a chip on `last_bg`, or as the first chip:
/// the prefix and what stands for the branch, uncut.
pub open spec fn branch_text(last_bg: Option<u8>, head: HeadView, conf: WorkDirGit) -> Seq<char> {
    new_part_text(last_bg, conf.bg) + style_text(Some(conf.bg), conf.sty) + (conf.prefix@
        + branch_label(head))
}

/// Draws the branch that `head` stands for.
pub fn git_at(p: &mut Prompt, head: Head)
    ensures
        final(p).conf() == old(p).conf(),
        final(p).last_background() == Some(old(p).conf().work_dir.git.bg),
        final(p).rendered() == old(p).rendered() + branch_text(
            old(p).last_background(),
            head@,
            old(p).conf().work_dir.git,
        ),
{
    let ghost before = p.rendered();
    let ghost last_bg = p.last_background();
    let ghost conf = p.conf().work_dir.git;
    let ghost name = branch_label(head@);
    let bg = p.conf().work_dir.git.bg;
    let sty = p.conf().work_dir.git.sty;
    let prefix = p.conf().work_dir.git.prefix.clone();
    let branch = head.label();
    p.new_part(bg);
    p.style(sty);
    p.emit_text(prefix.as_str());
    p.emit_text(branch.as_str());
    proof {
        let chip = new_part_text(last_bg, bg) + style_text(Some(bg), sty);
        lemma_concat(before, new_part_text(last_bg, bg), style_text(Some(bg), sty));
        lemma_concat(before + chip, conf.prefix@, name);
        lemma_concat(before, chip, conf.prefix@ + name);
    }
}

/// Draws the branch of the repository that the current directory lies in,
/// or nothing where it lies in none. Which repository that is only the disk
/// knows: what is drawn is the chip of some branch, or nothing.
pub fn git(p: &mut Prompt)
    ensures
        final(p).conf() == old(p).conf(),
        final(p).rendered() == old(p).rendered() && final(p).last_background() == old(
            p,
        ).last_background() || final(p).last_background() == Some(old(p).conf().work_dir.git.bg)
            && exists|head: HeadView|
            final(p).rendered() == old(p).rendered() + #[trigger] branch_text(
                old(p).last_background(),
                head,
                old(p).conf().work_dir.git,
            ),
{
    let repo = match discover_repository(".") {
        Ok(repo) => repo,
        Err(_) => {
            return ;
        },
    };
    let head = read_head(&repo);
    git_at(p, head);
}

} // verus!
