//! Which alias a path is shown under.
//!
//! An alias applies to a path where the components of its prefix are the
//! first components of the path. Of the aliases that apply, the one with the
//! longest prefix wins, counted in characters; of several that long, the one
//! that stands first in the table. A prefix without characters never applies.

use crate::path::{has_prefix, path_components, ComponentView};
use vstd::prelude::*;
use vstd::utf8::encode_utf8;

verus! {

/// The components of a path given as text.
pub open spec fn text_components(text: Seq<char>) -> Seq<ComponentView> {
    path_components(encode_utf8(text))
}

/// Whether `alias`, a prefix and its replacement, applies to `path`.
pub open spec fn alias_applies(path: Seq<ComponentView>, alias: (Seq<char>, Seq<char>)) -> bool {
    alias.0.len() > 0 && has_prefix(path, text_components(alias.0))
}

/// Which of the first `upto` aliases wins for `path`, if any applies.
pub open spec fn best_alias(
    path: Seq<ComponentView>,
    aliases: Seq<(Seq<char>, Seq<char>)>,
    upto: nat,
) -> Option<int>
    decreases upto,
{
    if upto == 0 {
        None
    } else {
        let before = best_alias(path, aliases, (upto - 1) as nat);
        let last = upto - 1;
        let longer = match before {
            Some(best) => aliases[last].0.len() > aliases[best].0.len(),
            None => true,
        };
        if alias_applies(path, aliases[last]) && longer {
            Some(last)
        } else {
            before
        }
    }
}

/// `path` with the prefix of `alias` replaced.
pub open spec fn replaced(path: Seq<ComponentView>, alias: (Seq<char>, Seq<char>)) -> Seq<
    ComponentView,
> {
    text_components(alias.1) + path.skip(text_components(alias.0).len() as int)
}

/// `path` as it is shown under `aliases`: with the prefix of the winning
/// alias replaced, or unchanged where no alias applies.
pub open spec fn resolved(path: Seq<ComponentView>, aliases: Seq<(Seq<char>, Seq<char>)>) -> Seq<
    ComponentView,
> {
    match best_alias(path, aliases, aliases.len()) {
        Some(best) => replaced(path, aliases[best]),
        None => path,
    }
}

/// Among the first `upto` aliases: the one that wins applies, no alias that
/// applies has a longer prefix, and none with a prefix as long stands before
/// it. Where none wins, none applies.
proof fn lemma_best_alias(
    path: Seq<ComponentView>,
    aliases: Seq<(Seq<char>, Seq<char>)>,
    upto: nat,
)
    requires
        upto <= aliases.len(),
    ensures
        match best_alias(path, aliases, upto) {
            Some(best) => {
                &&& 0 <= best < upto
                &&& alias_applies(path, aliases[best])
                &&& forall|j: int|
                    0 <= j < upto && alias_applies(path, #[trigger] aliases[j]) ==> {
                        &&& aliases[j].0.len() <= aliases[best].0.len()
                        &&& aliases[j].0.len() == aliases[best].0.len() ==> best <= j
                    }
            },
            None => forall|j: int| 0 <= j < upto ==> !alias_applies(path, #[trigger] aliases[j]),
        },
    decreases upto,
{
    if upto > 0 {
        lemma_best_alias(path, aliases, (upto - 1) as nat);
    }
}

/// A path is shown under the alias with the longest prefix among those that
/// apply to it, and under the first of them where several are as long: no
/// alias that applies has a longer prefix than the one whose replacement is
/// used, and none with a prefix as long stands before it. Where no alias
/// applies, the path is shown as it is.
pub proof fn lemma_longest_alias(path: Seq<ComponentView>, aliases: Seq<(Seq<char>, Seq<char>)>)
    ensures
        (exists|j: int| 0 <= j < aliases.len() && alias_applies(path, #[trigger] aliases[j]))
            ==> exists|best: int|
            {
                &&& 0 <= best < aliases.len()
                &&& alias_applies(path, #[trigger] aliases[best])
                &&& resolved(path, aliases) == replaced(path, aliases[best])
                &&& forall|j: int|
                    0 <= j < aliases.len() && alias_applies(path, #[trigger] aliases[j]) ==> {
                        &&& aliases[j].0.len() <= aliases[best].0.len()
                        &&& aliases[j].0.len() == aliases[best].0.len() ==> best <= j
                    }
            },
        (forall|j: int| 0 <= j < aliases.len() ==> !alias_applies(path, #[trigger] aliases[j]))
            ==> resolved(path, aliases) == path,
{
    lemma_best_alias(path, aliases, aliases.len());
}

} // verus!
