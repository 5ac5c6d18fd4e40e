//! The privilege indicator: `#` for the superuser, `$` for everybody else.

use crate::config::Dollar;
use crate::outside::effective_uid;
use crate::prompt::{new_part_text, style_text, Prompt};
use crate::text::lemma_concat;
use vstd::prelude::*;

verus! {

/// What draws the privilege indicator behind a chip on `last_bg`, or as the
/// first chip.
pub open spec fn dollar_text(last_bg: Option<u8>, root: bool, conf: Dollar) -> Seq<char> {
    if root {
        new_part_text(last_bg, conf.bg) + style_text(Some(conf.bg), conf.root_sty) + seq!['#']
    } else {
        new_part_text(last_bg, conf.bg) + style_text(Some(conf.bg), conf.user_sty) + seq!['$']
    }
}

/// Whether `uid` is the superuser: the user with the number 0.
pub fn is_superuser(uid: u32) -> (root: bool)
    ensures
        root == (uid == 0),
{
    uid == 0
}

/// Whether this process runs as the superuser. Which user it runs as only
/// the running process knows.
fn is_root() -> bool {
    is_superuser(effective_uid())
}

/// Draws the privilege indicator of the superuser, if `root` is set, or
/// else that of everybody else.
pub fn dollar_as(p: &mut Prompt, root: bool)
    ensures
        final(p).conf() == old(p).conf(),
        final(p).last_background() == Some(old(p).conf().dollar.bg),
        final(p).rendered() == old(p).rendered() + dollar_text(
            old(p).last_background(),
            root,
            old(p).conf().dollar,
        ),
{
    let ghost before = p.rendered();
    let ghost last_bg = p.last_background();
    let ghost conf = p.conf().dollar;
    let bg = p.conf().dollar.bg;
    p.new_part(bg);
    proof {
        reveal_strlit("#");
        reveal_strlit("$");
    }
    if root {
        let sty = p.conf().dollar.root_sty;
        p.style(sty);
        p.emit_text("#");
        proof {
            lemma_concat(before, new_part_text(last_bg, bg), style_text(Some(bg), sty));
            lemma_concat(
                before,
                new_part_text(last_bg, bg) + style_text(Some(bg), sty),
                seq!['#'],
            );
        }
    } else {
        let sty = p.conf().dollar.user_sty;
        p.style(sty);
        p.emit_text("$");
        proof {
            lemma_concat(before, new_part_text(last_bg, bg), style_text(Some(bg), sty));
            lemma_concat(
                before,
                new_part_text(last_bg, bg) + style_text(Some(bg), sty),
                seq!['$'],
            );
        }
    }
}

/// Draws the privilege indicator of the user that this process runs as.
/// Who that is only the running process knows: the indicator is one of the
/// two.
pub fn dollar(p: &mut Prompt)
    ensures
        final(p).conf() == old(p).conf(),
        final(p).last_background() == Some(old(p).conf().dollar.bg),
        exists|root: bool|
            final(p).rendered() == old(p).rendered() + #[trigger] dollar_text(
                old(p).last_background(),
                root,
                old(p).conf().dollar,
            ),
{
    let root = is_root();
    dollar_as(p, root);
}

} // verus!
