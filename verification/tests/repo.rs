use git2::build::CheckoutBuilder;
use git2::{Oid, Repository, RepositoryInitOptions, Signature, Time};
use promptress::parts::workdir::git::{get_status, GitStatus};
use promptress::parts::workdir::{process_path, Part};
use promptress::path::components;
use promptress::WorkDir;
use std::path::Path;
use std::time::{SystemTime, UNIX_EPOCH};

fn fresh_dir(name: &str) -> String {
    let stamp = SystemTime::now().duration_since(UNIX_EPOCH).unwrap().as_nanos();
    format!("/tmp/promptress_{}_{}", name, stamp)
}

fn fresh_repo(name: &str) -> (String, Repository) {
    let dir = fresh_dir(name);
    let mut options = RepositoryInitOptions::new();
    options.initial_head("main");
    let repo = Repository::init_opts(&dir, &options).unwrap();
    (dir, repo)
}

/// Commits a tree that holds `files` on top of `parents`, and moves HEAD
/// there.
fn commit(repo: &Repository, files: &[(&str, &[u8])], parents: &[Oid]) -> Oid {
    commit_to(repo, Some("HEAD"), files, parents)
}

/// Commits a tree that holds `files` on top of `parents`, and moves the
/// reference `to` there, if one is given.
fn commit_to(repo: &Repository, to: Option<&str>, files: &[(&str, &[u8])], parents: &[Oid]) -> Oid {
    let mut builder = repo.treebuilder(None).unwrap();
    for (name, content) in files {
        let blob = repo.blob(content).unwrap();
        builder.insert(name, blob, 0o100644).unwrap();
    }
    let tree = repo.find_tree(builder.write().unwrap()).unwrap();
    let who = Signature::new("somebody", "somebody@example.org", &Time::new(0, 0)).unwrap();
    let mut above = Vec::new();
    for parent in parents {
        above.push(repo.find_commit(*parent).unwrap());
    }
    let above: Vec<&git2::Commit> = above.iter().collect();
    repo.commit(to, &who, &who, "a commit", &tree, &above).unwrap()
}

/// Makes the index and the work tree what HEAD is.
fn check_out(repo: &Repository) {
    let mut how = CheckoutBuilder::new();
    how.force().remove_untracked(true);
    repo.checkout_head(Some(&mut how)).unwrap();
}

fn named(branch: &str) -> GitStatus {
    GitStatus { branch: branch.to_string(), ..GitStatus::default() }
}

#[test]
fn a_directory_that_is_no_repository_has_no_status() {
    assert_eq!(get_status(Path::new("/tmp/promptress_no_such_directory"), false), Ok(None));
    assert_eq!(get_status(Path::new("/tmp/promptress_no_such_directory"), true), Ok(None));
    assert_eq!(get_status(Path::new(""), true), Ok(None));
}

#[test]
fn a_repository_is_found_at_its_own_directory_only() {
    let (dir, repo) = fresh_repo("own_directory");
    commit(&repo, &[("sub", b"x")], &[]);
    assert_eq!(get_status(Path::new(&dir), false), Ok(Some(named("main"))));
    assert_eq!(get_status(Path::new(&format!("{}/below", dir)), false), Ok(None));
    assert_eq!(get_status(Path::new("/tmp"), false), Ok(None));
}

#[test]
fn a_branch_without_a_commit_shows_as_two_dashes() {
    let (dir, _repo) = fresh_repo("unborn");
    assert_eq!(get_status(Path::new(&dir), false), Ok(Some(named("--"))));
    assert_eq!(get_status(Path::new(&dir), true), Ok(Some(named("--"))));
}

#[test]
fn a_branch_shows_by_its_short_name() {
    let (dir, repo) = fresh_repo("branch");
    let first = commit(&repo, &[("a", b"1")], &[]);
    check_out(&repo);
    assert_eq!(get_status(Path::new(&dir), true), Ok(Some(named("main"))));
    let at = repo.find_commit(first).unwrap();
    repo.branch("topic/one", &at, false).unwrap();
    repo.set_head("refs/heads/topic/one").unwrap();
    assert_eq!(get_status(Path::new(&dir), true), Ok(Some(named("topic/one"))));
}

#[test]
fn a_detached_head_shows_as_head() {
    let (dir, repo) = fresh_repo("detached");
    let first = commit(&repo, &[("a", b"1")], &[]);
    check_out(&repo);
    repo.set_head_detached(first).unwrap();
    assert_eq!(get_status(Path::new(&dir), true), Ok(Some(named("HEAD"))));
}

#[test]
fn changes_are_counted_only_where_that_is_asked_for() {
    let (dir, repo) = fresh_repo("not_asked");
    commit(&repo, &[("a", b"1")], &[]);
    // the index and the work tree are empty: the file counts as deleted
    assert_eq!(get_status(Path::new(&dir), false), Ok(Some(named("main"))));
    let counted = get_status(Path::new(&dir), true).unwrap().unwrap();
    assert_eq!(counted, GitStatus { index_changes: 1, ..named("main") });
    assert!(!counted.is_clean_and_up_to_date());
}

#[test]
fn an_untracked_file_counts_as_untracked() {
    let (dir, repo) = fresh_repo("untracked");
    let first = commit(&repo, &[("a", b"1"), ("b", b"2")], &[]);
    check_out(&repo);
    // HEAD and the index forget both files; the work tree keeps them
    commit(&repo, &[], &[first]);
    let mut index = repo.index().unwrap();
    index.clear().unwrap();
    index.write().unwrap();
    assert_eq!(
        get_status(Path::new(&dir), true),
        Ok(Some(GitStatus { untracked: 2, ..named("main") }))
    );
}

#[test]
fn a_change_of_the_work_tree_counts_for_the_work_tree() {
    let (dir, repo) = fresh_repo("work_tree");
    let first = commit(&repo, &[("a", b"1"), ("b", b"2")], &[]);
    check_out(&repo);
    // another content comes into the work tree, and the index is left alone
    let second = commit(&repo, &[("a", b"changed"), ("b", b"2")], &[first]);
    let tree = repo.find_commit(second).unwrap().tree().unwrap();
    let mut how = CheckoutBuilder::new();
    how.force().update_index(false);
    repo.checkout_tree(tree.as_object(), Some(&mut how)).unwrap();
    repo.reference("refs/heads/main", first, true, "back").unwrap();
    assert_eq!(
        get_status(Path::new(&dir), true),
        Ok(Some(GitStatus { wt_changes: 1, ..named("main") }))
    );
}

#[test]
fn a_file_staged_and_changed_again_counts_for_the_index_alone() {
    let (dir, repo) = fresh_repo("staged");
    let first = commit(&repo, &[("a", b"1"), ("b", b"2")], &[]);
    check_out(&repo);
    // HEAD goes on to another content of `a`; the index and the work tree
    // stay, so that against the new HEAD the old content is staged
    let second = commit(&repo, &[("a", b"changed"), ("b", b"2")], &[first]);
    let listed = repo.statuses(None).unwrap();
    assert_eq!(listed.len(), 1);
    assert!(listed.get(0).unwrap().status().is_index_modified());
    assert!(!listed.get(0).unwrap().status().is_wt_modified());
    assert_eq!(
        get_status(Path::new(&dir), true),
        Ok(Some(GitStatus { index_changes: 1, ..named("main") }))
    );
    // now the work tree gets a third content, and the index is left alone
    let third = commit(&repo, &[("a", b"once more"), ("b", b"2")], &[second]);
    let tree = repo.find_commit(third).unwrap().tree().unwrap();
    let mut how = CheckoutBuilder::new();
    how.force().update_index(false);
    repo.checkout_tree(tree.as_object(), Some(&mut how)).unwrap();
    repo.reference("refs/heads/main", second, true, "back").unwrap();
    let listed = repo.statuses(None).unwrap();
    assert_eq!(listed.len(), 1);
    assert!(listed.get(0).unwrap().status().is_index_modified());
    assert!(listed.get(0).unwrap().status().is_wt_modified());
    assert_eq!(
        get_status(Path::new(&dir), true),
        Ok(Some(GitStatus { index_changes: 1, ..named("main") }))
    );
}

#[test]
fn the_distance_to_the_upstream_is_counted() {
    let (dir, repo) = fresh_repo("upstream");
    let first = commit(&repo, &[("a", b"1")], &[]);
    let second = commit(&repo, &[("a", b"2")], &[first]);
    let third = commit(&repo, &[("a", b"3")], &[second]);
    check_out(&repo);
    repo.remote("origin", "https://example.invalid/nothing.git").unwrap();
    repo.reference("refs/remotes/origin/main", first, true, "fetched").unwrap();
    let mut main = repo.find_branch("main", git2::BranchType::Local).unwrap();
    main.set_upstream(Some("origin/main")).unwrap();
    assert_eq!(
        get_status(Path::new(&dir), true),
        Ok(Some(GitStatus { commits_ahead: 2, ..named("main") }))
    );
    // without the counting, the distance is not looked up
    assert_eq!(get_status(Path::new(&dir), false), Ok(Some(named("main"))));
    // the upstream moves on by another way
    let other = commit_to(&repo, None, &[("a", b"other")], &[first]);
    repo.reference("refs/remotes/origin/main", other, true, "fetched").unwrap();
    assert_eq!(repo.head().unwrap().target(), Some(third));
    assert_eq!(
        get_status(Path::new(&dir), true),
        Ok(Some(GitStatus { commits_ahead: 2, commits_behind: 1, ..named("main") }))
    );
}

#[test]
fn a_branch_without_upstream_has_no_distance() {
    let (dir, repo) = fresh_repo("no_upstream");
    let first = commit(&repo, &[("a", b"1")], &[]);
    commit(&repo, &[("a", b"2")], &[first]);
    check_out(&repo);
    assert_eq!(get_status(Path::new(&dir), true), Ok(Some(named("main"))));
}

#[test]
fn a_distance_that_cannot_be_computed_is_an_error() {
    let (dir, repo) = fresh_repo("no_distance");
    commit(&repo, &[("a", b"1")], &[]);
    check_out(&repo);
    repo.remote("origin", "https://example.invalid/nothing.git").unwrap();
    // the upstream points to what is no commit
    let blob = repo.blob(b"no commit").unwrap();
    repo.reference("refs/remotes/origin/main", blob, true, "fetched").unwrap();
    let mut main = repo.find_branch("main", git2::BranchType::Local).unwrap();
    main.set_upstream(Some("origin/main")).unwrap();
    let failed = get_status(Path::new(&dir), true);
    assert!(failed.is_err(), "{:?}", failed);
    assert!(!failed.unwrap_err().message.is_empty());
    // without the counting, the distance is not looked up
    assert_eq!(get_status(Path::new(&dir), false), Ok(Some(named("main"))));
}

#[test]
fn a_bare_repository_shows_its_branch_only() {
    let dir = fresh_dir("bare");
    let mut options = RepositoryInitOptions::new();
    options.initial_head("main").bare(true);
    let repo = Repository::init_opts(&dir, &options).unwrap();
    commit(&repo, &[("a", b"1")], &[]);
    assert!(repo.statuses(None).is_err());
    assert_eq!(get_status(Path::new(&dir), true), Ok(Some(named("main"))));
}

#[test]
fn a_repository_on_the_way_shows_behind_its_directory() {
    let (dir, repo) = fresh_repo("on_the_way");
    commit(&repo, &[("a", b"1")], &[]);
    check_out(&repo);
    let name = &dir["/tmp/".len()..];
    let mut conf = WorkDir::default();
    conf.git.enable = true;
    conf.path_max_len = 1000;
    conf.comp_max_len = 1000;
    // at the directory of the repository
    assert_eq!(
        process_path(Path::new(&dir), &components(dir.as_bytes()), &conf),
        vec![
            Part::Root,
            Part::Dir("tmp".to_string()),
            Part::Stem(name.to_string()),
            Part::Git(named("main")),
        ]
    );
    // below it
    let below = format!("{}/x/y", dir);
    assert_eq!(
        process_path(Path::new(&below), &components(below.as_bytes()), &conf),
        vec![
            Part::Root,
            Part::Dir("tmp".to_string()),
            Part::Dir(name.to_string()),
            Part::Git(named("main")),
            Part::Dir("x".to_string()),
            Part::Stem("y".to_string()),
        ]
    );
    // with repositories switched off
    conf.git.enable = false;
    assert_eq!(
        process_path(Path::new(&dir), &components(dir.as_bytes()), &conf),
        vec![Part::Root, Part::Dir("tmp".to_string()), Part::Stem(name.to_string())]
    );
}

#[test]
fn the_directory_of_the_repository_itself_is_not_asked() {
    let (dir, repo) = fresh_repo("git_dir");
    commit(&repo, &[("a", b"1")], &[]);
    check_out(&repo);
    let name = &dir["/tmp/".len()..];
    let mut conf = WorkDir::default();
    conf.git.enable = true;
    conf.path_max_len = 1000;
    conf.comp_max_len = 1000;
    let inside = format!("{}/.git", dir);
    assert!(Repository::open(&inside).is_ok());
    assert_eq!(
        process_path(Path::new(&inside), &components(inside.as_bytes()), &conf),
        vec![
            Part::Root,
            Part::Dir("tmp".to_string()),
            Part::Dir(name.to_string()),
            Part::Git(named("main")),
            Part::Stem(".git".to_string()),
        ]
    );
}

#[test]
fn the_repository_is_looked_for_where_the_directory_is_not_where_it_is_shown() {
    let (dir, repo) = fresh_repo("shown_elsewhere");
    commit(&repo, &[("a", b"1")], &[]);
    check_out(&repo);
    let mut conf = WorkDir::default();
    conf.git.enable = true;
    let below = format!("{}/x", dir);
    assert_eq!(
        process_path(Path::new(&below), &components(b"Repo/x"), &conf),
        vec![
            Part::Dir("Repo".to_string()),
            Part::Git(named("main")),
            Part::Stem("x".to_string()),
        ]
    );
    // more components are shown than the directory has above it
    assert_eq!(
        process_path(Path::new("/"), &components(b"a/b/c"), &conf),
        vec![
            Part::Dir("a".to_string()),
            Part::Dir("b".to_string()),
            Part::Stem("c".to_string()),
        ]
    );
}

#[test]
fn a_repository_that_does_not_fit_ends_the_walk() {
    let (dir, repo) = fresh_repo("no_room");
    commit(&repo, &[("a", b"1")], &[]);
    check_out(&repo);
    let mut conf = WorkDir::default();
    conf.git.enable = true;
    let below = format!("{}/x", dir);
    // "x" costs 4 and the branch "main" costs 7
    conf.path_max_len = 10;
    assert_eq!(
        process_path(Path::new(&below), &components(b"Repo/x"), &conf),
        vec![Part::Truncate, Part::Stem("x".to_string())]
    );
    conf.path_max_len = 11;
    assert_eq!(
        process_path(Path::new(&below), &components(b"Repo/x"), &conf),
        vec![Part::Truncate, Part::Git(named("main")), Part::Stem("x".to_string())]
    );
    conf.path_max_len = 18;
    assert_eq!(
        process_path(Path::new(&below), &components(b"Repo/x"), &conf),
        vec![
            Part::Dir("Repo".to_string()),
            Part::Git(named("main")),
            Part::Stem("x".to_string()),
        ]
    );
    // at the deepest directory the repository comes before the component
    conf.path_max_len = 7;
    assert_eq!(
        process_path(Path::new(&dir), &components(b"Repo"), &conf),
        vec![Part::Truncate, Part::Git(named("main"))]
    );
    conf.path_max_len = 6;
    assert_eq!(
        process_path(Path::new(&dir), &components(b"Repo"), &conf),
        vec![Part::Truncate]
    );
}
