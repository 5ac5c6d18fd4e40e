//! The state of a repository in short: its branch, how far the branch is from
//! its upstream, and how many files have changes of each kind.

use crate::outside::{
    branch_reference, branch_upstream, error_message, find_local_branch, graph_ahead_behind,
    include_untracked, is_unborn_branch, open_repository, reference_shorthand, reference_target,
    repository_head, repository_statuses, status_at, status_count, status_options,
};
use std::path::Path;
use vstd::prelude::*;
use vstd::string::*;

verus! {

/// The state of a repository.
#[derive(Clone, Debug, PartialEq, Eq)]
pub struct GitStatus {
    pub branch: String,
    /// Number of commits ahead of the upstream
    pub commits_ahead: u32,
    /// Number of commits behind the upstream
    pub commits_behind: u32,
    /// Number of files changed in the index
    pub index_changes: u32,
    /// Number of files changed in the work tree
    pub wt_changes: u32,
    /// Number of untracked files in the work tree
    pub untracked: u32,
    /// Number of files in conflict
    pub conflicts: u32,
}

/// A `GitStatus` with the branch as a sequence of characters.
pub struct GitStatusView {
    pub branch: Seq<char>,
    pub commits_ahead: u32,
    pub commits_behind: u32,
    pub index_changes: u32,
    pub wt_changes: u32,
    pub untracked: u32,
    pub conflicts: u32,
}

impl GitStatusView {
    /// Nothing is pending and the branch is level with its upstream: all six
    /// counters are zero.
    pub open spec fn is_clean(self) -> bool {
        self.commits_ahead == 0 && self.commits_behind == 0 && self.index_changes == 0
            && self.wt_changes == 0 && self.untracked == 0 && self.conflicts == 0
    }
}

impl View for GitStatus {
    type V = GitStatusView;

    /// The state with the branch as a sequence of characters.
    open spec fn view(&self) -> GitStatusView {
        GitStatusView {
            branch: self.branch@,
            commits_ahead: self.commits_ahead,
            commits_behind: self.commits_behind,
            index_changes: self.index_changes,
            wt_changes: self.wt_changes,
            untracked: self.untracked,
            conflicts: self.conflicts,
        }
    }
}

impl GitStatus {
    /// Whether all six counters are zero.
    pub fn is_clean_and_up_to_date(&self) -> (clean: bool)
        ensures
            clean <==> self.commits_ahead == 0 && self.commits_behind == 0 && self.index_changes
                == 0 && self.wt_changes == 0 && self.untracked == 0 && self.conflicts == 0,
            clean == self@.is_clean(),
    {
        self.commits_ahead == 0 && self.commits_behind == 0 && self.index_changes == 0
            && self.wt_changes == 0 && self.untracked == 0 && self.conflicts == 0
    }
}

impl Default for GitStatus {
    /// A clean state without a branch.
    fn default() -> (status: GitStatus)
        ensures
            status@.branch == Seq::<char>::empty(),
            status@.is_clean(),
    {
        GitStatus {
            branch: String::new(),
            commits_ahead: 0,
            commits_behind: 0,
            index_changes: 0,
            wt_changes: 0,
            untracked: 0,
            conflicts: 0,
        }
    }
}

/// The kinds of change that are counted.
#[derive(Clone, Copy, Debug, PartialEq, Eq)]
pub enum ChangeKind {
    /// Staged: new, modified, deleted, renamed or of another type in the index.
    Index,
    /// Not staged: modified, deleted, renamed or of another type in the work tree.
    Worktree,
    /// In conflict.
    Conflict,
    /// New in the work tree and not staged.
    Untracked,
}

/// What one entry of a status listing says of a file: for each flag of the
/// listing, whether it is set.
#[derive(Clone, Copy, Debug, PartialEq, Eq)]
pub struct FileState {
    pub index_new: bool,
    pub index_modified: bool,
    pub index_deleted: bool,
    pub index_renamed: bool,
    pub index_typechange: bool,
    pub wt_new: bool,
    pub wt_modified: bool,
    pub wt_deleted: bool,
    pub wt_typechange: bool,
    pub wt_renamed: bool,
    pub conflicted: bool,
}

impl FileState {
    /// The index differs from the last commit.
    pub open spec fn staged(self) -> bool {
        self.index_new || self.index_modified || self.index_deleted || self.index_renamed
            || self.index_typechange
    }

    /// A file that the index knows differs from it in the work tree.
    pub open spec fn unstaged(self) -> bool {
        self.wt_modified || self.wt_deleted || self.wt_renamed || self.wt_typechange
    }

    /// The one of index, work tree and untracked that the entry counts for:
    /// the first of them whose flags it has.
    pub open spec fn bucket(self) -> Option<ChangeKind> {
        if self.staged() {
            Some(ChangeKind::Index)
        } else if self.unstaged() {
            Some(ChangeKind::Worktree)
        } else if self.wt_new {
            Some(ChangeKind::Untracked)
        } else {
            None
        }
    }

    /// Whether the entry counts as a change of `kind`. A conflict counts
    /// beside whatever else the entry counts for.
    pub open spec fn counts_as(self, kind: ChangeKind) -> bool {
        match kind {
            ChangeKind::Conflict => self.conflicted,
            _ => self.bucket() == Some(kind),
        }
    }

    /// An entry with no flag set.
    pub fn unchanged() -> (state: FileState)
        ensures
            !state.staged(),
            !state.unstaged(),
            !state.wt_new,
            !state.conflicted,
    {
        FileState {
            index_new: false,
            index_modified: false,
            index_deleted: false,
            index_renamed: false,
            index_typechange: false,
            wt_new: false,
            wt_modified: false,
            wt_deleted: false,
            wt_typechange: false,
            wt_renamed: false,
            conflicted: false,
        }
    }
}

/// An entry counts for at most one of index, work tree and untracked.
pub proof fn lemma_one_bucket(state: FileState)
    ensures
        !(state.counts_as(ChangeKind::Index) && state.counts_as(ChangeKind::Worktree)),
        !(state.counts_as(ChangeKind::Index) && state.counts_as(ChangeKind::Untracked)),
        !(state.counts_as(ChangeKind::Worktree) && state.counts_as(ChangeKind::Untracked)),
        state.staged() ==> state.counts_as(ChangeKind::Index),
        !state.staged() && state.unstaged() ==> state.counts_as(ChangeKind::Worktree),
{
}

/// How many of `states` count as a change of `kind`.
pub open spec fn changes_of(states: Seq<FileState>, kind: ChangeKind) -> nat
    decreases states.len(),
{
    if states.len() == 0 {
        0
    } else {
        changes_of(states.drop_last(), kind) + if states.last().counts_as(kind) {
            1nat
        } else {
            0nat
        }
    }
}

/// Index, work tree and untracked together never count more than there are
/// entries.
pub proof fn lemma_buckets_bounded(states: Seq<FileState>)
    ensures
        changes_of(states, ChangeKind::Index) + changes_of(states, ChangeKind::Worktree)
            + changes_of(states, ChangeKind::Untracked) <= states.len(),
        changes_of(states, ChangeKind::Conflict) <= states.len(),
    decreases states.len(),
{
    if states.len() > 0 {
        lemma_buckets_bounded(states.drop_last());
    }
}

/// `n`, or the largest counter value where `n` is above it.
pub open spec fn capped(n: nat) -> u32 {
    if n > u32::MAX {
        u32::MAX
    } else {
        n as u32
    }
}

/// The number of changes of each kind.
#[derive(Clone, Copy, Debug, PartialEq, Eq)]
pub struct ChangeCounts {
    pub index: u32,
    pub worktree: u32,
    pub conflicts: u32,
    pub untracked: u32,
}

/// The counts of `states`, as far as a counter goes.
pub open spec fn counts_of(states: Seq<FileState>) -> ChangeCounts {
    ChangeCounts {
        index: capped(changes_of(states, ChangeKind::Index)),
        worktree: capped(changes_of(states, ChangeKind::Worktree)),
        conflicts: capped(changes_of(states, ChangeKind::Conflict)),
        untracked: capped(changes_of(states, ChangeKind::Untracked)),
    }
}

/// The counter after one more change.
fn one_more(counter: u32) -> (next: u32)
    ensures
        next == capped(counter as nat + 1),
{
    if counter < u32::MAX {
        counter + 1
    } else {
        counter
    }
}

/// Counts the changes of each kind among the entries of a status listing.
pub fn tally(states: &[FileState]) -> (counts: ChangeCounts)
    ensures
        counts == counts_of(states@),
{
    let mut counts = ChangeCounts { index: 0, worktree: 0, conflicts: 0, untracked: 0 };
    let mut i: usize = 0;
    while i < states.len()
        invariant
            i <= states@.len(),
            counts == counts_of(states@.take(i as int)),
        decreases states@.len() - i,
    {
        let state = states[i];
        assert(states@.take(i + 1).drop_last() =~= states@.take(i as int));
        if state.index_new || state.index_modified || state.index_deleted || state.index_renamed
            || state.index_typechange {
            counts.index = one_more(counts.index);
        } else if state.wt_modified || state.wt_deleted || state.wt_renamed
            || state.wt_typechange {
            counts.worktree = one_more(counts.worktree);
        } else if state.wt_new {
            counts.untracked = one_more(counts.untracked);
        }
        if state.conflicted {
            counts.conflicts = one_more(counts.conflicts);
        }
        i += 1;
    }
    assert(states@.take(i as int) =~= states@);
    counts
}

/// What HEAD was found to be.
#[derive(Clone, Debug, PartialEq, Eq)]
pub enum Head {
    /// On a reference with this short name.
    Named(String),
    /// On a reference whose short name is no text.
    Unnamed,
    /// On a branch that has no commit yet.
    Unborn,
    /// Not to be had.
    Unreadable,
}

/// A `Head` with the name as a sequence of characters.
pub enum HeadView {
    Named(Seq<char>),
    Unnamed,
    Unborn,
    Unreadable,
}

impl View for Head {
    type V = HeadView;

    /// What HEAD is, with the name as a sequence of characters.
    open spec fn view(&self) -> HeadView {
        match self {
            Head::Named(name) => HeadView::Named(name@),
            Head::Unnamed => HeadView::Unnamed,
            Head::Unborn => HeadView::Unborn,
            Head::Unreadable => HeadView::Unreadable,
        }
    }
}

/// What stands for the branch: its short name; `--` where there is none yet,
/// or none that is text; `?` where HEAD could not be read.
pub open spec fn branch_label(head: HeadView) -> Seq<char> {
    match head {
        HeadView::Named(name) => name,
        HeadView::Unnamed => "--"@,
        HeadView::Unborn => "--"@,
        HeadView::Unreadable => "?"@,
    }
}

/// What HEAD is, by what looking it up gave: the short name of the reference
/// that it resolves to, or nothing where that name is no text; or where it
/// does not resolve, whether that is because the branch has no commit yet.
pub open spec fn head_of(looked: Result<Option<Seq<char>>, bool>) -> HeadView {
    match looked {
        Ok(Some(name)) => HeadView::Named(name),
        Ok(None) => HeadView::Unnamed,
        Err(unborn) => if unborn {
            HeadView::Unborn
        } else {
            HeadView::Unreadable
        },
    }
}

/// What looking up HEAD gave, with the name as a sequence of characters.
pub open spec fn looked_view(looked: Result<Option<String>, bool>) -> Result<
    Option<Seq<char>>,
    bool,
> {
    match looked {
        Ok(Some(name)) => Ok(Some(name@)),
        Ok(None) => Ok(None),
        Err(unborn) => Err(unborn),
    }
}

impl Head {
    /// What HEAD is, by what looking it up gave.
    pub fn resolved(looked: Result<Option<String>, bool>) -> (head: Head)
        ensures
            head@ == head_of(looked_view(looked)),
    {
        match looked {
            Ok(Some(name)) => Head::Named(name),
            Ok(None) => Head::Unnamed,
            Err(unborn) => if unborn {
                Head::Unborn
            } else {
                Head::Unreadable
            },
        }
    }

    /// What stands for the branch.
    pub fn label(self) -> (label: String)
        ensures
            label@ == branch_label(self@),
    {
        match self {
            Head::Named(name) => name,
            Head::Unnamed => String::from_str("--"),
            Head::Unborn => String::from_str("--"),
            Head::Unreadable => String::from_str("?"),
        }
    }
}

/// What was read from a repository.
#[derive(Clone, Debug, PartialEq, Eq)]
pub struct Reading {
    /// What HEAD is.
    pub head: Head,
    /// Commits ahead of the upstream and behind it, where that was asked
    /// for and the branch has an upstream.
    pub distance: Option<(usize, usize)>,
    /// The entries of the status listing, where that was asked for and could
    /// be had.
    pub changes: Option<Vec<FileState>>,
}

/// A `Reading` with sequences.
pub struct ReadingView {
    pub head: HeadView,
    pub distance: Option<(usize, usize)>,
    pub changes: Option<Seq<FileState>>,
}

impl View for Reading {
    type V = ReadingView;

    /// What was read, with sequences.
    open spec fn view(&self) -> ReadingView {
        ReadingView {
            head: self.head@,
            distance: self.distance,
            changes: match self.changes {
                Some(states) => Some(states@),
                None => None,
            },
        }
    }
}

/// The state that a reading amounts to. A distance is kept by its low 32
/// bits; a count of changes stops at the largest counter value.
pub open spec fn summary(reading: ReadingView) -> GitStatusView {
    let counts = match reading.changes {
        Some(states) => counts_of(states),
        None => ChangeCounts { index: 0, worktree: 0, conflicts: 0, untracked: 0 },
    };
    GitStatusView {
        branch: branch_label(reading.head),
        commits_ahead: match reading.distance {
            Some(distance) => distance.0 as u32,
            None => 0,
        },
        commits_behind: match reading.distance {
            Some(distance) => distance.1 as u32,
            None => 0,
        },
        index_changes: counts.index,
        wt_changes: counts.worktree,
        untracked: counts.untracked,
        conflicts: counts.conflicts,
    }
}

/// Folds what was read from a repository into its state.
pub fn summarize(reading: Reading) -> (status: GitStatus)
    ensures
        status@ == summary(reading@),
{
    let counts = match &reading.changes {
        Some(states) => tally(states.as_slice()),
        None => ChangeCounts { index: 0, worktree: 0, conflicts: 0, untracked: 0 },
    };
    let (ahead, behind) = match reading.distance {
        Some(distance) => (
            #[verifier::truncate]
            (distance.0 as u32),
            #[verifier::truncate]
            (distance.1 as u32),
        ),
        None => (0, 0),
    };
    GitStatus {
        branch: reading.head.label(),
        commits_ahead: ahead,
        commits_behind: behind,
        index_changes: counts.index,
        wt_changes: counts.worktree,
        untracked: counts.untracked,
        conflicts: counts.conflicts,
    }
}

/// Why the state of a repository could not be had.
#[derive(Clone, Debug, PartialEq, Eq)]
pub struct StatusError {
    /// What the version control library said.
    pub message: String,
}

/// What HEAD of `repo` is. What the repository answers is on disk; what is
/// made of each answer, `Head::resolved` says.
pub(crate) fn read_head(repo: &git2::Repository) -> (head: Head) {
    let looked = match repository_head(repo) {
        Ok(reference) => Ok(reference_shorthand(&reference)),
        Err(error) => Err(is_unborn_branch(&error)),
    };
    Head::resolved(looked)
}

/// The distance that a measurement amounts to: none where there was nothing
/// to measure, the commits ahead and behind where the measurement gave
/// them, and an error with its message where it failed.
pub fn distance_from(measured: Option<Result<(usize, usize), String>>) -> (distance: Result<
    Option<(usize, usize)>,
    StatusError,
>)
    ensures
        match measured {
            None => distance == Ok::<Option<(usize, usize)>, StatusError>(None),
            Some(Ok(counted)) => distance == Ok::<Option<(usize, usize)>, StatusError>(
                Some(counted),
            ),
            Some(Err(message)) => distance == Err::<Option<(usize, usize)>, StatusError>(
                StatusError { message },
            ),
        },
{
    match measured {
        None => Ok(None),
        Some(Ok(counted)) => Ok(Some(counted)),
        Some(Err(message)) => Err(StatusError { message }),
    }
}

/// How far the local branch `name` is from its upstream, if it has one.
/// There is nothing to measure where the branch, its upstream or the commit
/// of either is not to be had. What the repository answers is on disk; what
/// is made of the measurement, `distance_from` says.
fn read_distance(repo: &git2::Repository, name: &str) -> (distance: Result<
    Option<(usize, usize)>,
    StatusError,
>) {
    let branch = match find_local_branch(repo, name) {
        Ok(branch) => branch,
        Err(_) => {
            return distance_from(None);
        },
    };
    let local = match reference_target(branch_reference(&branch)) {
        Some(target) => target,
        None => {
            return distance_from(None);
        },
    };
    let upstream = match branch_upstream(&branch) {
        Ok(upstream) => upstream,
        Err(_) => {
            return distance_from(None);
        },
    };
    let remote = match reference_target(branch_reference(&upstream)) {
        Some(target) => target,
        None => {
            return distance_from(None);
        },
    };
    match graph_ahead_behind(repo, local, remote) {
        Ok(counted) => distance_from(Some(Ok(counted))),
        Err(error) => distance_from(Some(Err(error_message(&error)))),
    }
}

/// The entries of the status listing of `repo`, untracked files among them,
/// or nothing where the listing cannot be had.
fn read_changes(repo: &git2::Repository) -> (changes: Option<Vec<FileState>>) {
    let mut options = status_options();
    include_untracked(&mut options, true);
    match repository_statuses(repo, &mut options) {
        Ok(listing) => {
            let count = status_count(&listing);
            let mut states: Vec<FileState> = Vec::new();
            let mut i: usize = 0;
            while i < count
                invariant
                    i <= count,
                decreases count - i,
            {
                match status_at(&listing, i) {
                    Some(state) => {
                        states.push(state);
                    },
                    None => {
                        break ;
                    },
                }
                i += 1;
            }
            Some(states)
        },
        Err(_) => None,
    }
}

/// What can have been read from a repository: a distance only where it was
/// asked for and HEAD is on a reference with a name, and changes only where
/// they were asked for.
pub open spec fn may_be_read(reading: ReadingView, status: bool) -> bool {
    &&& reading.distance is Some ==> status && reading.head is Named
    &&& reading.changes is Some ==> status
}

/// Reads from `repo` what its state is made of: HEAD; where `status` is set
/// and HEAD is on a reference with a name, the distance of that branch to
/// its upstream; and where `status` is set, the changes. Reading fails only
/// where the distance was asked for and could not be measured.
fn read_repository(repo: &git2::Repository, status: bool) -> (read: Result<Reading, StatusError>)
    ensures
        match read {
            Ok(reading) => may_be_read(reading@, status),
            Err(_) => status,
        },
{
    let head = read_head(repo);
    let mut distance: Option<(usize, usize)> = None;
    if status {
        if let Head::Named(name) = &head {
            match read_distance(repo, name.as_str()) {
                Ok(found) => {
                    distance = found;
                },
                Err(error) => {
                    return Err(error);
                },
            }
        }
    }
    let changes = if status {
        read_changes(repo)
    } else {
        None
    };
    Ok(Reading { head, distance, changes })
}

/// The state that looking at a directory amounts to: none where it is no
/// repository, the summary of what was read where reading went well, and the
/// error where it did not.
pub fn status_from(looked: Option<Result<Reading, StatusError>>) -> (found: Result<
    Option<GitStatus>,
    StatusError,
>)
    ensures
        match looked {
            None => found == Ok::<Option<GitStatus>, StatusError>(None),
            Some(Ok(reading)) => found matches Ok(Some(state)) && state@ == summary(reading@),
            Some(Err(error)) => found == Err::<Option<GitStatus>, StatusError>(error),
        },
{
    match looked {
        None => Ok(None),
        Some(Ok(reading)) => Ok(Some(summarize(reading))),
        Some(Err(error)) => Err(error),
    }
}

/// The state of the repository whose directory `path` is, or nothing where
/// `path` is no such directory. With `status` unset only the branch is
/// looked up, and the counters are zero; with it set, the distance to the
/// upstream is looked up where HEAD is on a reference with a name. An error
/// is returned only where the distance was asked for and could not be
/// computed. Whether there is a repository and what it holds is on disk;
/// what is made of what was read, `status_from` says.
pub fn get_status(path: &Path, status: bool) -> (found: Result<Option<GitStatus>, StatusError>)
    ensures
        match found {
            Ok(Some(state)) => exists|reading: ReadingView|
                state@ == summary(reading) && may_be_read(reading, status),
            Ok(None) => true,
            Err(_) => status,
        },
        !status ==> (found matches Ok(Some(state)) ==> state@.is_clean()),
{
    let looked = match open_repository(path) {
        Ok(repo) => Some(read_repository(&repo, status)),
        Err(_) => None,
    };
    status_from(looked)
}

} // verus!
