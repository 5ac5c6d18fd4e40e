//! The exit code of the last command.

use crate::config::ExitCode;
use crate::prompt::{new_part_text, style_text, Prompt};
use crate::text::lemma_concat;
use vstd::prelude::*;
use vstd::string::*;

verus! {

/// What is shown for an exit code: the code itself, or `?` where there is
/// none.
pub open spec fn shown_code(code: Option<Seq<char>>) -> Seq<char> {
    match code {
        Some(text) => text,
        None => seq!['?'],
    }
}

/// Whether an exit code says that the command succeeded: it is `0`.
pub open spec fn is_success(code: Option<Seq<char>>) -> bool {
    code == Some(seq!['0'])
}

/// What draws the exit code behind a chip on `last_bg`, or as the first
/// chip: in the colours of success for `0`, in those of failure for
/// anything else.
pub open spec fn exit_code_text(
    last_bg: Option<u8>,
    code: Option<Seq<char>>,
    conf: ExitCode,
) -> Seq<char> {
    if is_success(code) {
        new_part_text(last_bg, conf.success_bg) + style_text(
            Some(conf.success_bg),
            conf.success_sty,
        ) + shown_code(code)
    } else {
        new_part_text(last_bg, conf.failure_bg) + style_text(
            Some(conf.failure_bg),
            conf.failure_sty,
        ) + shown_code(code)
    }
}

/// The background of the chip of an exit code.
pub open spec fn exit_code_bg(code: Option<Seq<char>>, conf: ExitCode) -> u8 {
    if is_success(code) {
        conf.success_bg
    } else {
        conf.failure_bg
    }
}

/// The view of a text that may be missing.
pub open spec fn code_view(code: Option<&str>) -> Option<Seq<char>> {
    match code {
        Some(text) => Some(text@),
        None => None,
    }
}

/// Draws the exit code of the last command. `code` is the code as text, or
/// nothing where it is not known.
pub fn exit_code(p: &mut Prompt, code: Option<&str>)
    ensures
        final(p).conf() == old(p).conf(),
        final(p).last_background() == Some(
            exit_code_bg(code_view(code), old(p).conf().exit_code),
        ),
        final(p).rendered() == old(p).rendered() + exit_code_text(
            old(p).last_background(),
            code_view(code),
            old(p).conf().exit_code,
        ),
{
    let ghost before = p.rendered();
    let ghost last_bg = p.last_background();
    proof {
        reveal_strlit("?");
    }
    let shown: &str = match code {
        Some(text) => text,
        None => "?",
    };
    let success = match code {
        Some(text) => text.unicode_len() == 1 && text.get_char(0) == '0',
        None => false,
    };
    proof {
        if let Some(text) = code {
            if success {
                assert(text@ =~= seq!['0']);
            }
        }
    }
    if success {
        let bg = p.conf().exit_code.success_bg;
        let sty = p.conf().exit_code.success_sty;
        p.new_part(bg);
        p.style(sty);
        p.emit_text(shown);
        proof {
            lemma_concat(before, new_part_text(last_bg, bg), style_text(Some(bg), sty));
            lemma_concat(before, new_part_text(last_bg, bg) + style_text(Some(bg), sty), shown@);
        }
    } else {
        let bg = p.conf().exit_code.failure_bg;
        let sty = p.conf().exit_code.failure_sty;
        p.new_part(bg);
        p.style(sty);
        p.emit_text(shown);
        proof {
            lemma_concat(before, new_part_text(last_bg, bg), style_text(Some(bg), sty));
            lemma_concat(before, new_part_text(last_bg, bg) + style_text(Some(bg), sty), shown@);
        }
    }
}

} // verus!
