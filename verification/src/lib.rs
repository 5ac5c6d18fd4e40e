//! A segmented shell prompt: the working directory cut to a length budget,
//! the state of the repositories it lies in, and the escape codes that draw
//! the chips.

pub mod config;
pub mod outside;
pub mod parts;
pub mod path;
pub mod prompt;
pub mod text;

pub use crate::config::{AliasTable, Config, Dollar, ExitCode, Style, WorkDir, WorkDirGit};
pub use crate::prompt::Prompt;

use crate::parts::dollar::dollar_text;
use crate::parts::exitcode::{code_view, exit_code_bg, exit_code_text};
use crate::parts::workdir::alias::resolved;
use crate::parts::workdir::draw::{bg_after, parts_text};
use crate::parts::workdir::git::GitStatusView;
use crate::parts::workdir::segment::may_be_found;
use crate::parts::workdir::work_dir_parts;
use crate::path::path_components;
use crate::prompt::finish_text;
use crate::text::lemma_concat;
use std::path::Path;
use vstd::prelude::*;

verus! {

/// The whole line behind a chip on `last_bg`, or from its start: the exit
/// code, the working directory, the privilege indicator and the end of the
/// line. `found` is what was found on the way up from the directory, and
/// `root` whether the superuser asks.
pub open spec fn prompt_text(
    last_bg: Option<u8>,
    code: Option<Seq<char>>,
    spelling: Seq<u8>,
    found: Seq<Option<GitStatusView>>,
    root: bool,
    conf: Config,
) -> Seq<char> {
    let code_bg = Some(exit_code_bg(code, conf.exit_code));
    let parts = work_dir_parts(spelling, found, conf.work_dir);
    exit_code_text(last_bg, code, conf.exit_code) + parts_text(code_bg, parts, conf.work_dir)
        + dollar_text(bg_after(code_bg, parts, conf.work_dir), root, conf.dollar) + finish_text(
        Some(conf.dollar.bg),
    )
}

/// Draws the whole prompt and returns the line: the exit code `code` of the
/// last command, the working directory `dir`, spelled `spelling`, and the
/// privilege indicator.
pub fn display_prompt(p: Prompt, code: Option<&str>, dir: &Path, spelling: &[u8]) -> (line: String)
    ensures
        exists|found: Seq<Option<GitStatusView>>, root: bool|
            may_be_found(
                resolved(path_components(spelling@), p.conf().work_dir.aliases@),
                found,
                p.conf().work_dir,
            ) && line@ == p.rendered() + #[trigger] prompt_text(
                p.last_background(),
                code_view(code),
                spelling@,
                found,
                root,
                *p.conf(),
            ),
{
    let ghost before = p.rendered();
    let ghost last_bg = p.last_background();
    let ghost conf = *p.conf();
    let mut p = p;
    parts::exit_code(&mut p, code);
    let ghost code_bg = p.last_background();
    let ghost first = exit_code_text(last_bg, code_view(code), conf.exit_code);
    parts::work_dir(&mut p, dir, spelling);
    let ghost found = choose|found: Seq<Option<GitStatusView>>|
        #![trigger work_dir_parts(spelling@, found, conf.work_dir)]
        {
            &&& may_be_found(
                resolved(path_components(spelling@), conf.work_dir.aliases@),
                found,
                conf.work_dir,
            )
            &&& p.last_background() == bg_after(
                code_bg,
                work_dir_parts(spelling@, found, conf.work_dir),
                conf.work_dir,
            )
            &&& p.rendered() == before + first + parts_text(
                code_bg,
                work_dir_parts(spelling@, found, conf.work_dir),
                conf.work_dir,
            )
        };
    let ghost second = parts_text(
        code_bg,
        work_dir_parts(spelling@, found, conf.work_dir),
        conf.work_dir,
    );
    let ghost dir_bg = p.last_background();
    let ghost drawn = p.rendered();
    parts::dollar(&mut p);
    let ghost root = choose|root: bool|
        p.rendered() == drawn + #[trigger] dollar_text(dir_bg, root, conf.dollar);
    let ghost third = dollar_text(dir_bg, root, conf.dollar);
    p.finish();
    let ghost fourth = finish_text(Some(conf.dollar.bg));
    proof {
        lemma_concat(before, first, second);
        lemma_concat(before, first + second, third);
        lemma_concat(before, first + second + third, fourth);
        assert(first + second + third + fourth == prompt_text(
            last_bg,
            code_view(code),
            spelling@,
            found,
            root,
            conf,
        ));
    }
    p.into_output()
}

} // verus!
