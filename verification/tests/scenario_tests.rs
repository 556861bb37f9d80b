//! The command scenarios of `wt`, played against the library's decisions
//! with the answers git and the filesystem give in them.
use git_worktree_smart::cmd::add::{add_next, add_start, AddAction, AddEvent};
use git_worktree_smart::cmd::remove::{remove_next, remove_start, RemoveAction};
use git_worktree_smart::error::AppError;
use git_worktree_smart::git::command::CommandStatus;
use git_worktree_smart::git::resolve::resolve_from_worktrees_with_paths;
use git_worktree_smart::models::{WorktreeInfo, WorktreeStatus};

fn status(success: bool, stdout: &str) -> AddEvent {
    AddEvent::Status(Ok(CommandStatus { success, stdout: stdout.to_owned(), stderr: String::new() }))
}

fn worktree(path: &str, branch: &str) -> WorktreeInfo {
    WorktreeInfo {
        path: path.to_owned(),
        name: branch.to_owned(),
        branch: Some(branch.to_owned()),
        head_hash: "4d9f1a2".to_owned(),
        head_msg: "Initial commit".to_owned(),
        status: WorktreeStatus::clean(),
    }
}

/// The worktrees of a repository at `/tmp/repo` with two added branches.
fn repository() -> Vec<WorktreeInfo> {
    vec![
        worktree("/tmp/repo", "main"),
        worktree("/tmp/repo-feature-login", "feature/login"),
        worktree("/tmp/repo-api", "api"),
    ]
}

/// Plays a removal with the answers to its questions, in order.
fn remove_with(info: &WorktreeInfo, force: bool, answers: &[bool]) -> RemoveAction {
    let mut action = remove_start();
    let mut answers = answers.iter();
    loop {
        match action {
            RemoveAction::Ask(check) => {
                let answer = *answers.next().expect("an answer for every question");
                action = remove_next(info, force, check, answer);
            }
            done => return done,
        }
    }
}

#[test]
fn add_in_empty_repo_returns_clean_error() {
    // A freshly initialised repository: not bare, and HEAD names no commit.
    let (st, _) = add_start("feature/login", None, None, None);
    let (st, _) = add_next(st, AddEvent::Text(Ok("/tmp/repo".to_owned())));
    let (st, _) = add_next(st, status(true, "false"));
    let (_, a) = add_next(st, status(false, ""));
    assert!(matches!(a, AddAction::Fail(AppError::EmptyRepository)));
}

#[test]
fn remove_main_repo_root_fails_with_error() {
    // `wt remove main`: the directory exists and is the main worktree.
    let main = &repository()[0];
    match remove_with(main, false, &[true, true]) {
        RemoveAction::Refuse(AppError::CannotRemoveMainWorktree { path }) => assert_eq!(path, "/tmp/repo"),
        other => panic!("expected a refusal, got {other:?}"),
    }
}

#[test]
fn remove_current_active_worktree_fails_even_with_force() {
    // Run from inside the linked worktree: it exists, is not the main one,
    // and is the active one.
    let linked = &repository()[1];
    for force in [false, true] {
        match remove_with(linked, force, &[true, false, true]) {
            RemoveAction::Refuse(AppError::CannotRemoveActiveWorktree { path }) => {
                assert_eq!(path, "/tmp/repo-feature-login")
            }
            other => panic!("expected a refusal, got {other:?}"),
        }
    }
}

#[test]
fn test_case_insensitive_substring_and_short_query_resolution() {
    // Neither query names an existing path.
    let ws = repository();
    let login = resolve_from_worktrees_with_paths(&ws, "LOGIN", None, &Vec::new()).unwrap();
    assert_eq!(login.path, "/tmp/repo-feature-login");
    let api = resolve_from_worktrees_with_paths(&ws, "api", None, &Vec::new()).unwrap();
    assert_eq!(api.path, "/tmp/repo-api");
}

#[test]
fn test_fuzzy_match_threshold_rejects_unrelated_query() {
    let ws = vec![worktree("/tmp/repo", "main"), worktree("/tmp/repo-feature-login", "feature/login")];
    match resolve_from_worktrees_with_paths(&ws, "zzz", None, &Vec::new()) {
        Err(AppError::WorktreeNotFound { query }) => assert_eq!(query, "zzz"),
        other => panic!("expected WorktreeNotFound, got {other:?}"),
    }
}
