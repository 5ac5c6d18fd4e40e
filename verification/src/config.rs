//! What the prompt is configured with: colours, styles, length budgets,
//! marker strings and the alias table.

use crate::text::text_eq;
use vstd::prelude::*;
use vstd::string::*;

verus! {

/// A foreground style: a palette colour and the text attributes drawn with it.
/// The background is no part of a style; the renderer keeps track of it.
#[derive(Clone, Copy, Debug)]
pub struct Style {
    pub color: u8,
    pub bold: bool,
    pub italic: bool,
    pub underline: bool,
    pub blink: bool,
    pub strike: bool,
}

impl Style {
    /// The style of the given colour with no attribute set.
    pub open spec fn plain(color: u8) -> Style {
        Style { color, bold: false, italic: false, underline: false, blink: false, strike: false }
    }

    /// A style of the given colour with no attribute set.
    pub fn color(color: u8) -> (style: Style)
        ensures
            style == Style::plain(color),
    {
        Style { color, bold: false, italic: false, underline: false, blink: false, strike: false }
    }

    /// A bold style of the given colour.
    pub fn bold(color: u8) -> (style: Style)
        ensures
            style == (Style { bold: true, ..Style::plain(color) }),
    {
        Style { color, bold: true, italic: false, underline: false, blink: false, strike: false }
    }
}

impl Default for Style {
    /// Colour 0 with no attribute set.
    fn default() -> (style: Style)
        ensures
            style == Style::plain(0),
    {
        Style::color(0)
    }
}

/// Colours of the privilege indicator.
pub struct Dollar {
    pub bg: u8,
    pub user_sty: Style,
    pub root_sty: Style,
}

impl Dollar {
    /// Whether every setting has the value that it has when nothing is
    /// configured.
    pub open spec fn is_default(self) -> bool {
        &&& self.bg == 0
        &&& self.user_sty == Style::plain(15)
        &&& self.root_sty == (Style { bold: true, ..Style::plain(9) })
    }
}

impl Default for Dollar {
    /// The settings when nothing is configured.
    fn default() -> (dollar: Dollar)
        ensures
            dollar.is_default(),
    {
        Dollar { bg: 0, user_sty: Style::color(15), root_sty: Style::bold(9) }
    }
}

/// Colours of the exit code chip.
pub struct ExitCode {
    pub success_bg: u8,
    pub success_sty: Style,
    pub failure_bg: u8,
    pub failure_sty: Style,
}

impl ExitCode {
    /// Whether every setting has the value that it has when nothing is
    /// configured.
    pub open spec fn is_default(self) -> bool {
        &&& self.success_bg == 0
        &&& self.success_sty == (Style { bold: true, ..Style::plain(10) })
        &&& self.failure_bg == 0
        &&& self.failure_sty == (Style { bold: true, ..Style::plain(9) })
    }
}

impl Default for ExitCode {
    /// The settings when nothing is configured.
    fn default() -> (exit_code: ExitCode)
        ensures
            exit_code.is_default(),
    {
        ExitCode {
            success_bg: 0,
            success_sty: Style::bold(10),
            failure_bg: 0,
            failure_sty: Style::bold(9),
        }
    }
}

/// How a repository shows inside the working directory.
pub struct WorkDirGit {
    /// Whether repositories are looked for at all.
    pub enable: bool,
    /// Background colour of the repository chip.
    pub bg: u8,
    /// Foreground style of the branch name.
    pub sty: Style,
    /// Text before the branch name.
    pub prefix: String,
    /// Text between the branch name and the indicators.
    pub separator: String,
    /// Whether pending changes and the distance to the upstream are counted.
    pub status: bool,
    /// Indicator for 'the branch is ahead of its upstream'.
    pub ahead: String,
    pub ahead_sty: Style,
    /// Indicator for 'the branch is behind its upstream'.
    pub behind: String,
    pub behind_sty: Style,
    /// Indicator for 'there are conflicts'.
    pub conflict: String,
    pub conflict_sty: Style,
    /// Indicator for 'there are staged changes'.
    pub index: String,
    pub index_sty: Style,
    /// Indicator for 'there are unstaged changes'.
    pub wt: String,
    pub wt_sty: Style,
    /// Indicator for 'there are untracked files'.
    pub untracked: String,
    pub untracked_sty: Style,
}

impl WorkDirGit {
    /// Whether every setting has the value that it has when nothing is
    /// configured.
    pub open spec fn is_default(self) -> bool {
        &&& !self.enable
        &&& self.bg == 250
        &&& self.sty == Style::plain(0)
        &&& self.prefix@ == "Git:"@
        &&& self.separator@ == "|"@
        &&& !self.status
        &&& self.ahead@ == "↑"@
        &&& self.ahead_sty == Style::plain(19)
        &&& self.behind@ == "↓"@
        &&& self.behind_sty == Style::plain(19)
        &&& self.conflict@ == "!"@
        &&& self.conflict_sty == Style::plain(0)
        &&& self.index@ == "•"@
        &&& self.index_sty == Style::plain(28)
        &&& self.wt@ == "+"@
        &&& self.wt_sty == Style::plain(88)
        &&& self.untracked@ == "-"@
        &&& self.untracked_sty == Style::plain(88)
    }
}

impl Default for WorkDirGit {
    /// The settings when nothing is configured.
    fn default() -> (git: WorkDirGit)
        ensures
            git.is_default(),
    {
        WorkDirGit {
            enable: false,
            bg: 250,
            sty: Style::color(0),
            prefix: String::from_str("Git:"),
            separator: String::from_str("|"),
            status: false,
            ahead: String::from_str("↑"),
            ahead_sty: Style::color(19),
            behind: String::from_str("↓"),
            behind_sty: Style::color(19),
            conflict: String::from_str("!"),
            conflict_sty: Style::color(0),
            index: String::from_str("•"),
            index_sty: Style::color(28),
            wt: String::from_str("+"),
            wt_sty: Style::color(88),
            untracked: String::from_str("-"),
            untracked_sty: Style::color(88),
        }
    }
}

/// One alias: a path prefix and what is shown in its place.
struct Alias {
    prefix: String,
    value: String,
}

/// The aliases of a configuration, in the order in which they are tried.
/// No two of them have the same prefix.
pub struct AliasTable {
    entries: Vec<Alias>,
}

/// No prefix occurs twice among `entries`.
pub open spec fn distinct_prefixes(entries: Seq<(Seq<char>, Seq<char>)>) -> bool {
    forall|i: int, j: int|
        0 <= i < entries.len() && 0 <= j < entries.len() && i != j ==> entries[i].0 != entries[j].0
}

/// Whether one of `entries` has the prefix `prefix`.
pub open spec fn has_prefix_entry(entries: Seq<(Seq<char>, Seq<char>)>, prefix: Seq<char>) -> bool {
    exists|i: int| 0 <= i < entries.len() && (#[trigger] entries[i]).0 == prefix
}

impl View for AliasTable {
    type V = Seq<(Seq<char>, Seq<char>)>;

    /// The aliases as pairs of prefix and replacement.
    closed spec fn view(&self) -> Seq<(Seq<char>, Seq<char>)> {
        Seq::new(self.entries@.len(), |i: int| (self.entries@[i].prefix@, self.entries@[i].value@))
    }
}

impl AliasTable {
    /// What every table built by `new` and `insert` is: no prefix twice.
    pub open spec fn well_formed(&self) -> bool {
        distinct_prefixes(self@)
    }

    /// A table without aliases.
    pub fn new() -> (table: AliasTable)
        ensures
            table@ == Seq::<(Seq<char>, Seq<char>)>::empty(),
            table.well_formed(),
    {
        AliasTable { entries: Vec::new() }
    }

    /// The number of aliases.
    pub fn len(&self) -> (n: usize)
        ensures
            n == self@.len(),
    {
        self.entries.len()
    }

    /// The prefix of the alias at `index`.
    pub fn prefix(&self, index: usize) -> (prefix: &str)
        requires
            index < self@.len(),
        ensures
            prefix@ == self@[index as int].0,
    {
        self.entries[index].prefix.as_str()
    }

    /// The replacement of the alias at `index`.
    pub fn value(&self, index: usize) -> (value: &str)
        requires
            index < self@.len(),
        ensures
            value@ == self@[index as int].1,
    {
        self.entries[index].value.as_str()
    }

    /// Where `prefix` stands in the table, if it does.
    pub fn position(&self, prefix: &str) -> (found: Option<usize>)
        ensures
            found is Some <==> has_prefix_entry(self@, prefix@),
            match found {
                Some(index) => index < self@.len() && self@[index as int].0 == prefix@,
                None => forall|i: int| 0 <= i < self@.len() ==> self@[i].0 != prefix@,
            },
    {
        let mut index: usize = 0;
        while index < self.entries.len()
            invariant
                index <= self.entries@.len(),
                forall|i: int| 0 <= i < index ==> self@[i].0 != prefix@,
            decreases self.entries@.len() - index,
        {
            if text_eq(self.entries[index].prefix.as_str(), prefix) {
                assert(self@[index as int].0 == prefix@);
                return Some(index);
            }
            index += 1;
        }
        None
    }

    /// Sets the replacement of `prefix`. A prefix that the table holds
    /// already keeps its place and gets the new replacement; the old one is
    /// returned. A new prefix goes to the end.
    pub fn insert(&mut self, prefix: &str, value: &str) -> (previous: Option<String>)
        ensures
            old(self).well_formed() ==> final(self).well_formed(),
            previous is Some <==> has_prefix_entry(old(self)@, prefix@),
            match previous {
                Some(old_value) => exists|i: int|
                    0 <= i < old(self)@.len() && old(self)@[i] == (prefix@, old_value@)
                        && final(self)@ == old(self)@.update(i, (prefix@, value@)),
                None => final(self)@ == old(self)@.push((prefix@, value@)),
            },
    {
        let ghost before = self@;
        match self.position(prefix) {
            Some(index) => {
                let mut replacement = String::from_str(value);
                std::mem::swap(&mut self.entries[index].value, &mut replacement);
                assert(self@ =~= before.update(index as int, (prefix@, value@)));
                Some(replacement)
            },
            None => {
                self.entries.push(
                    Alias { prefix: String::from_str(prefix), value: String::from_str(value) },
                );
                assert(self@ =~= before.push((prefix@, value@)));
                None
            },
        }
    }
}

impl Default for AliasTable {
    /// A table without aliases.
    fn default() -> (table: AliasTable)
        ensures
            table@ == Seq::<(Seq<char>, Seq<char>)>::empty(),
            table.well_formed(),
    {
        AliasTable::new()
    }
}

/// How the working directory is shown.
pub struct WorkDir {
    /// Marker at the end of a path component that was cut short.
    pub comp_trun: String,
    /// The most characters that one path component may take.
    pub comp_max_len: usize,
    /// The most characters that the whole path may take.
    pub path_max_len: usize,
    /// Marker in place of the path components that were left out.
    pub path_trun: String,
    /// Background colour of the path marker.
    pub path_trun_bg: u8,
    /// Foreground style of the path marker.
    pub path_trun_sty: Style,
    /// Background colour of a path component.
    pub dir_bg: u8,
    /// Foreground style of a path component.
    pub dir_sty: Style,
    /// Background colour of the deepest path component.
    pub base_bg: u8,
    /// Foreground style of the deepest path component.
    pub base_sty: Style,
    /// How repositories show.
    pub git: WorkDirGit,
    /// The path aliases.
    pub aliases: AliasTable,
}

impl WorkDir {
    /// Whether every setting has the value that it has when nothing is
    /// configured.
    pub open spec fn is_default(self) -> bool {
        &&& self.comp_trun@ == "..."@
        &&& self.comp_max_len == 16
        &&& self.path_max_len == 64
        &&& self.path_trun@ == "..."@
        &&& self.path_trun_bg == 15
        &&& self.path_trun_sty == Style::plain(0)
        &&& self.dir_bg == 15
        &&& self.dir_sty == Style::plain(0)
        &&& self.base_bg == 15
        &&& self.base_sty == Style::plain(0)
        &&& self.git.is_default()
        &&& self.aliases@ == Seq::<(Seq<char>, Seq<char>)>::empty()
        &&& self.aliases.well_formed()
    }
}

impl Default for WorkDir {
    /// The settings when nothing is configured.
    fn default() -> (work_dir: WorkDir)
        ensures
            work_dir.is_default(),
    {
        WorkDir {
            comp_trun: String::from_str("..."),
            comp_max_len: 16,
            path_max_len: 64,
            path_trun: String::from_str("..."),
            path_trun_bg: 15,
            path_trun_sty: Style::color(0),
            dir_bg: 15,
            dir_sty: Style::color(0),
            base_bg: 15,
            base_sty: Style::color(0),
            git: WorkDirGit::default(),
            aliases: AliasTable::new(),
        }
    }
}

/// The whole configuration.
pub struct Config {
    pub dollar: Dollar,
    pub exit_code: ExitCode,
    pub work_dir: WorkDir,
}

impl Default for Config {
    /// The settings when nothing is configured.
    fn default() -> (config: Config)
        ensures
            config.dollar.is_default(),
            config.exit_code.is_default(),
            config.work_dir.is_default(),
    {
        Config {
            dollar: Dollar::default(),
            exit_code: ExitCode::default(),
            work_dir: WorkDir::default(),
        }
    }
}

} // verus!
