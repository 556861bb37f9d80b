use git_worktree_smart::error::AppError;
use git_worktree_smart::git::command::{
    branch_check_args, check_remote_branch_exists, combine_output, is_commit_merged_or_reachable,
    main_root_source, main_worktree_entry, map_git_failure, reachability_args, run_git,
    run_git_stderr, spawn_failure, CommandStatus, MainRoot,
};
use git_worktree_smart::git::ops::{add_worktree, prune_dry_run_args, prune_worktrees, remove_worktree};
use git_worktree_smart::paths::path_is_within;

fn status(success: bool, stdout: &str, stderr: &str) -> CommandStatus {
    CommandStatus { success, stdout: stdout.to_owned(), stderr: stderr.to_owned() }
}

fn args(a: &[&str]) -> Vec<String> {
    a.iter().map(|s| s.to_string()).collect()
}

#[test]
fn path_equal_to_ancestor_is_within() {
    assert!(path_is_within(
        "/repo/super/.git/modules/sub",
        "/repo/super/.git/modules/sub",
    ));
}

#[test]
fn path_descendant_of_ancestor_is_within() {
    assert!(path_is_within(
        "/repo/super/.git/modules/sub/worktrees/x",
        "/repo/super/.git/modules/sub",
    ));
}

#[test]
fn ancestor_is_descendant_of_path_is_not_within() {
    assert!(!path_is_within("/repo/super", "/repo/super/.git"));
}

#[test]
fn sibling_path_is_not_within() {
    assert!(!path_is_within("/repo/super/sub", "/repo/super/.git/modules"));
}

#[test]
fn similar_prefix_but_not_within() {
    assert!(!path_is_within(
        "/repo/super/.git/modules/submarine",
        "/repo/super/.git/modules/sub",
    ));
}

#[test]
fn nothing_is_within_the_empty_path() {
    assert!(!path_is_within("/repo", ""));
    assert!(!path_is_within("", ""));
    assert!(path_is_within("/repo", "/repo"));
}

#[test]
fn run_git_returns_stdout_on_success() {
    let r = run_git(&args(&["status"]), &status(true, "ok output", "warning"));
    assert_eq!(r.unwrap(), "ok output");
}

#[test]
fn run_git_maps_missing_repository() {
    let r = run_git(
        &args(&["status"]),
        &status(false, "", "fatal: not a git repository (or any of the parent directories): .git"),
    );
    assert!(matches!(r, Err(AppError::NotAGitRepository)));
}

#[test]
fn run_git_maps_bare_repository() {
    let r = run_git(
        &args(&["status"]),
        &status(false, "", "fatal: this operation must be run in a work tree"),
    );
    assert!(matches!(r, Err(AppError::BareRepositoryNotSupported)));
    let r = run_git(&args(&["status"]), &status(false, "", "fatal: must be run in a work tree"));
    assert!(matches!(r, Err(AppError::BareRepositoryNotSupported)));
}

#[test]
fn run_git_keeps_git_message() {
    let r = run_git(&args(&["worktree", "add"]), &status(false, "", "fatal: invalid reference: x"));
    match r {
        Err(AppError::GitError { message }) => assert_eq!(message, "fatal: invalid reference: x"),
        other => panic!("expected GitError, got {other:?}"),
    }
}

#[test]
fn run_git_without_message_names_the_command() {
    let e = map_git_failure(&args(&["worktree", "prune"]), &status(false, "", ""));
    match e {
        AppError::GitError { message } => {
            assert_eq!(message, "git worktree prune failed (exit code unknown)")
        }
        other => panic!("expected GitError, got {other:?}"),
    }
}

#[test]
fn run_git_stderr_combines_streams() {
    let r = run_git_stderr(&args(&["worktree"]), &status(true, " out ", " err \n"));
    assert_eq!(r.unwrap(), "out\nerr");
    let r = run_git_stderr(&args(&["worktree"]), &status(true, "", "only err"));
    assert_eq!(r.unwrap(), "only err");
    assert_eq!(combine_output("only out  ", ""), "only out");
    assert_eq!(combine_output("", ""), "");
}

#[test]
fn branch_check_uses_local_ref() {
    assert_eq!(
        branch_check_args("feature/login"),
        vec!["show-ref", "--verify", "--quiet", "refs/heads/feature/login"]
    );
}

#[test]
fn remote_branch_is_matched_after_the_remote_name() {
    let out = "origin/main\norigin/feature/login\nupstream/dev";
    assert!(check_remote_branch_exists(out, "feature/login"));
    assert!(check_remote_branch_exists(out, "dev"));
    assert!(!check_remote_branch_exists(out, "login"));
    assert!(!check_remote_branch_exists(out, "origin"));
    assert!(!check_remote_branch_exists("", "main"));
}

#[test]
fn null_hash_is_always_reachable() {
    assert!(reachability_args("0000000").is_none());
    assert!(reachability_args("").is_none());
    assert!(is_commit_merged_or_reachable("000", ""));
    assert!(!is_commit_merged_or_reachable("abc1234", ""));
    assert!(is_commit_merged_or_reachable("abc1234", "refs/heads/main"));
    assert_eq!(
        reachability_args("abc1234").unwrap(),
        vec!["for-each-ref", "--contains", "abc1234", "refs/heads", "refs/remotes"]
    );
}

#[test]
fn main_worktree_is_the_first_listed() {
    let out = "worktree /a/main\nHEAD 123\n\nworktree /a/other\n";
    assert_eq!(main_worktree_entry(out).unwrap(), "/a/main");
    match main_worktree_entry("HEAD 123") {
        Err(AppError::GitError { message }) => {
            assert_eq!(message, "cannot determine the main worktree root")
        }
        other => panic!("expected GitError, got {other:?}"),
    }
}

#[test]
fn add_arguments_for_each_kind_of_branch() {
    assert_eq!(
        add_worktree("/p", "feat", None, None, true, false),
        vec!["worktree", "add", "/p", "feat"]
    );
    assert_eq!(
        add_worktree("/p", "feat", None, None, false, true),
        vec!["worktree", "add", "/p", "feat"]
    );
    assert_eq!(
        add_worktree("/p", "feat", None, Some("origin/base"), false, true),
        vec!["worktree", "add", "--track", "-b", "feat", "/p", "origin/base"]
    );
    assert_eq!(
        add_worktree("/p", "feat", Some("main"), None, false, false),
        vec!["worktree", "add", "-b", "feat", "/p", "main"]
    );
    assert_eq!(
        add_worktree("/p", "feat", None, None, false, false),
        vec!["worktree", "add", "-b", "feat", "/p"]
    );
}

#[test]
fn remove_and_prune_arguments() {
    assert_eq!(remove_worktree("/p", false), vec!["worktree", "remove", "/p"]);
    assert_eq!(remove_worktree("/p", true), vec!["worktree", "remove", "--force", "/p"]);
    assert_eq!(prune_worktrees(), vec!["worktree", "prune"]);
    assert_eq!(prune_dry_run_args(), vec!["worktree", "prune", "--dry-run", "--verbose"]);
}

#[test]
fn main_root_comes_from_the_toplevel_inside_the_git_dir() {
    match main_root_source("/p/.git/modules/sub", "/p/.git/modules/sub") {
        MainRoot::Toplevel => {}
        other => panic!("expected the toplevel, got {other:?}"),
    }
    match main_root_source("/p/repo", "/p/repo/.git") {
        MainRoot::Listed(p) => assert_eq!(p, "/p/repo"),
        other => panic!("expected the listed root, got {other:?}"),
    }
}

#[test]
fn a_git_that_cannot_start_is_reported() {
    let e = std::io::Error::new(std::io::ErrorKind::NotFound, "no git");
    assert!(matches!(spawn_failure(e, true), AppError::GitNotFound));
    let e = std::io::Error::new(std::io::ErrorKind::PermissionDenied, "denied");
    match spawn_failure(e, false) {
        AppError::Io(e) => assert_eq!(e.kind(), std::io::ErrorKind::PermissionDenied),
        other => panic!("expected the I/O error, got {other:?}"),
    }
}
