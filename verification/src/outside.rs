//! The doors to the version control library, to the user database and to the
//! parts of the standard library that the verifier has no description of.
//! Nothing in this file is proved: each function is one call, believed as its
//! contract states it.

use crate::parts::workdir::git::FileState;
use std::path::Path;
use vstd::prelude::*;

verus! {

/// `std::path::Path`: a path as the operating system takes it. Nothing is
/// known of what it holds.
#[verifier::external_type_specification]
#[verifier::external_body]
pub struct ExPath(std::path::Path);

/// `git2::Repository`: an open repository.
#[verifier::external_type_specification]
#[verifier::external_body]
pub struct ExRepository(git2::Repository);

/// `git2::Error`: why a call into the version control library failed.
#[verifier::external_type_specification]
#[verifier::external_body]
pub struct ExGitError(git2::Error);

/// `git2::Reference`: a reference of a repository.
#[verifier::external_type_specification]
#[verifier::external_body]
pub struct ExReference<'repo>(git2::Reference<'repo>);

/// `git2::Branch`: a reference that is a branch.
#[verifier::external_type_specification]
#[verifier::external_body]
pub struct ExBranch<'repo>(git2::Branch<'repo>);

/// `git2::Oid`: the identity of an object of a repository.
#[verifier::external_type_specification]
#[verifier::external_body]
pub struct ExOid(git2::Oid);

/// `git2::StatusOptions`: what a status listing is to hold.
#[verifier::external_type_specification]
#[verifier::external_body]
pub struct ExStatusOptions(git2::StatusOptions);

/// `git2::Statuses`: a status listing.
#[verifier::external_type_specification]
#[verifier::external_body]
pub struct ExStatuses<'repo>(git2::Statuses<'repo>);

/// `Path::parent`: the path without its last component, if it has one.
/// Nothing is claimed of it.
#[verifier::external_body]
pub(crate) fn path_parent(path: &Path) -> (up: Option<&Path>) {
    path.parent()
}

/// What `String::from_utf8_lossy` makes of `bytes`: the text that they
/// encode, with U+FFFD in place of what is no UTF-8.
pub uninterp spec fn lossy_text(bytes: Seq<u8>) -> Seq<char>;

/// `String::from_utf8_lossy`. Believed: the same bytes always give the same
/// text, and bytes that are UTF-8 give the text that they encode.
#[verifier::external_body]
pub(crate) fn decode_lossy(bytes: &[u8]) -> (text: String)
    ensures
        text@ == lossy_text(bytes@),
        vstd::utf8::valid_utf8(bytes@) ==> text@ == vstd::utf8::decode_utf8(bytes@),
{
    String::from_utf8_lossy(bytes).into_owned()
}

/// `git2::Repository::open`: the repository whose directory `path` is.
/// Whether it opens depends on what is on disk: nothing is claimed of it.
#[verifier::external_body]
pub(crate) fn open_repository(path: &Path) -> (opened: Result<git2::Repository, git2::Error>) {
    git2::Repository::open(path)
}

/// `git2::Repository::discover`: the repository at `start` or above it.
/// Whether one is found depends on what is on disk: nothing is claimed of
/// it.
#[verifier::external_body]
pub(crate) fn discover_repository(start: &str) -> (found: Result<git2::Repository, git2::Error>) {
    git2::Repository::discover(start)
}

/// `git2::Repository::head`: the reference that HEAD resolves to. Nothing
/// is claimed of it.
#[verifier::external_body]
pub(crate) fn repository_head(repo: &git2::Repository) -> (head: Result<
    git2::Reference<'_>,
    git2::Error,
>) {
    repo.head()
}

/// `git2::Reference::shorthand`: the short name of a reference, or nothing
/// where that name is no text. Nothing is claimed of it.
#[verifier::external_body]
pub(crate) fn reference_shorthand(reference: &git2::Reference<'_>) -> (name: Option<String>) {
    match reference.shorthand() {
        Some(name) => Some(name.to_owned()),
        None => None,
    }
}

/// `git2::Reference::target`: the object that a direct reference points to.
/// Nothing is claimed of it.
#[verifier::external_body]
pub(crate) fn reference_target(reference: &git2::Reference<'_>) -> (target: Option<git2::Oid>) {
    reference.target()
}

/// `git2::Error::code`: whether the error says that the branch has no
/// commit yet. Nothing is claimed of it.
#[verifier::external_body]
pub(crate) fn is_unborn_branch(error: &git2::Error) -> (unborn: bool) {
    match error.code() {
        git2::ErrorCode::UnbornBranch => true,
        _ => false,
    }
}

/// `git2::Error::message`: the text of an error. Nothing is claimed of it.
#[verifier::external_body]
pub(crate) fn error_message(error: &git2::Error) -> (message: String) {
    error.message().to_owned()
}

/// `git2::Repository::find_branch`, among the local branches. Nothing is
/// claimed of it.
#[verifier::external_body]
pub(crate) fn find_local_branch<'repo>(repo: &'repo git2::Repository, name: &str) -> (branch:
    Result<git2::Branch<'repo>, git2::Error>) {
    repo.find_branch(name, git2::BranchType::Local)
}

/// `git2::Branch::get`: the reference that a branch is. Nothing is claimed
/// of it.
#[verifier::external_body]
pub(crate) fn branch_reference<'a, 'repo>(branch: &'a git2::Branch<'repo>) -> (reference:
    &'a git2::Reference<'repo>) {
    branch.get()
}

/// `git2::Branch::upstream`: the branch that a local branch tracks. Nothing
/// is claimed of it.
#[verifier::external_body]
pub(crate) fn branch_upstream<'repo>(branch: &git2::Branch<'repo>) -> (upstream: Result<
    git2::Branch<'repo>,
    git2::Error,
>) {
    branch.upstream()
}

/// `git2::Repository::graph_ahead_behind`: how many commits `local` has that
/// `upstream` lacks, and how many it lacks that `upstream` has. Nothing is
/// claimed of it.
#[verifier::external_body]
pub(crate) fn graph_ahead_behind(
    repo: &git2::Repository,
    local: git2::Oid,
    upstream: git2::Oid,
) -> (distance: Result<(usize, usize), git2::Error>) {
    repo.graph_ahead_behind(local, upstream)
}

/// `git2::StatusOptions::new`: the options of a status listing, all unset.
/// Nothing is claimed of it.
#[verifier::external_body]
pub(crate) fn status_options() -> (options: git2::StatusOptions) {
    git2::StatusOptions::new()
}

/// `git2::StatusOptions::include_untracked`: sets whether untracked files
/// are listed. Nothing is claimed of it.
#[verifier::external_body]
pub(crate) fn include_untracked(options: &mut git2::StatusOptions, wanted: bool) {
    options.include_untracked(wanted);
}

/// `git2::Repository::statuses`: the status of the files of a repository.
/// Nothing is claimed of it.
#[verifier::external_body]
pub(crate) fn repository_statuses<'repo>(
    repo: &'repo git2::Repository,
    options: &mut git2::StatusOptions,
) -> (listing: Result<git2::Statuses<'repo>, git2::Error>) {
    repo.statuses(Some(options))
}

/// `git2::Statuses::len`: the number of entries of a listing. Nothing is
/// claimed of it.
#[verifier::external_body]
pub(crate) fn status_count(listing: &git2::Statuses<'_>) -> (count: usize) {
    listing.len()
}

/// `git2::Statuses::get` and `git2::StatusEntry::status`: the flags of the
/// entry at `index`, each read by its own method of `git2::Status`, or
/// nothing where the listing has no such entry. Nothing is claimed of it.
#[verifier::external_body]
pub(crate) fn status_at(listing: &git2::Statuses<'_>, index: usize) -> (state: Option<FileState>) {
    let flags = listing.get(index)?.status();
    Some(FileState {
        index_new: flags.is_index_new(),
        index_modified: flags.is_index_modified(),
        index_deleted: flags.is_index_deleted(),
        index_renamed: flags.is_index_renamed(),
        index_typechange: flags.is_index_typechange(),
        wt_new: flags.is_wt_new(),
        wt_modified: flags.is_wt_modified(),
        wt_deleted: flags.is_wt_deleted(),
        wt_typechange: flags.is_wt_typechange(),
        wt_renamed: flags.is_wt_renamed(),
        conflicted: flags.is_conflicted(),
    })
}

/// `users::get_effective_uid`: the effective user of this process. Nothing
/// is claimed of it.
#[verifier::external_body]
pub(crate) fn effective_uid() -> (uid: u32) {
    users::get_effective_uid()
}

} // verus!
