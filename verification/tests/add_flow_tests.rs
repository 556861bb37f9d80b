use git_worktree_smart::cmd::add::{add_next, add_start, AddAction, AddEvent, AddStage, AddState};
use git_worktree_smart::error::AppError;
use git_worktree_smart::git::command::CommandStatus;
use git_worktree_smart::models::{WorktreeInfo, WorktreeStatus};

fn status(success: bool, stdout: &str, stderr: &str) -> AddEvent {
    AddEvent::Status(Ok(CommandStatus {
        success,
        stdout: stdout.to_owned(),
        stderr: stderr.to_owned(),
    }))
}

fn text(s: &str) -> AddEvent {
    AddEvent::Text(Ok(s.to_owned()))
}

fn git_args(a: &AddAction) -> Vec<String> {
    match a {
        AddAction::RunGit(args) => args.clone(),
        other => panic!("expected a git run, got {other:?}"),
    }
}

/// Answers the questions up to and including the target check for an
/// inferred path beside `/w/repo`.
fn to_branch_checks(name: &str, base: Option<&str>, track: Option<&str>) -> (AddState, AddAction) {
    let (st, a) = add_start(name, base, track, None);
    assert!(matches!(a, AddAction::FindMainRoot));
    let (st, a) = add_next(st, text("/w/repo"));
    assert_eq!(git_args(&a), ["rev-parse", "--is-bare-repository"]);
    let (st, a) = add_next(st, status(true, "false", ""));
    assert_eq!(git_args(&a), ["rev-parse", "--verify", "--quiet", "HEAD"]);
    let (st, a) = add_next(st, status(true, "abc", ""));
    let expected = format!("/w/repo-{}", name.replace('/', "-"));
    match &a {
        AddAction::CheckExists(t) => assert_eq!(t, &expected),
        other => panic!("expected a path check, got {other:?}"),
    }
    let (st, a) = add_next(st, AddEvent::Flag(false));
    assert_eq!(git_args(&a), ["show-ref", "--verify", "--quiet", &format!("refs/heads/{name}")]);
    (st, a)
}

#[test]
fn add_new_branch_creates_the_parent_then_the_worktree() {
    let (st, _) = to_branch_checks("feature/auth", None, None);
    let (st, a) = add_next(st, status(false, "", ""));
    assert_eq!(git_args(&a), ["for-each-ref", "--format=%(refname:strip=2)", "refs/remotes"]);
    let (st, a) = add_next(st, status(true, "origin/main", ""));
    match &a {
        AddAction::CreateDir(d) => assert_eq!(d, "/w"),
        other => panic!("expected the parent directory, got {other:?}"),
    }
    assert_eq!(st.stage(), AddStage::Parent);
    let (st, a) = add_next(st, AddEvent::Done(Ok(())));
    assert_eq!(git_args(&a), ["worktree", "add", "-b", "feature/auth", "/w/repo-feature-auth"]);
    let (_, a) = add_next(st, status(true, "", ""));
    match a {
        AddAction::Finish(t) => assert_eq!(t, "/w/repo-feature-auth"),
        other => panic!("expected the end, got {other:?}"),
    }
}

#[test]
fn add_remote_only_branch_is_checked_out_as_it_is() {
    let (st, _) = to_branch_checks("deploy", None, None);
    let (st, _) = add_next(st, status(false, "", ""));
    let (st, _) = add_next(st, status(true, "origin/deploy\nupstream/other", ""));
    let (_, a) = add_next(st, AddEvent::Done(Ok(())));
    assert_eq!(git_args(&a), ["worktree", "add", "/w/repo-deploy", "deploy"]);
}

#[test]
fn add_with_track_and_base() {
    let (st, _) = to_branch_checks("hotfix", Some("main"), Some("origin/hotfix"));
    let (st, _) = add_next(st, status(false, "", ""));
    let (st, _) = add_next(st, status(true, "origin/hotfix", ""));
    let (_, a) = add_next(st, AddEvent::Done(Ok(())));
    assert_eq!(
        git_args(&a),
        ["worktree", "add", "--track", "-b", "hotfix", "/w/repo-hotfix", "origin/hotfix"]
    );
    let (st, _) = to_branch_checks("hotfix", Some("main"), None);
    let (st, _) = add_next(st, status(false, "", ""));
    let (st, _) = add_next(st, status(true, "", ""));
    let (_, a) = add_next(st, AddEvent::Done(Ok(())));
    assert_eq!(git_args(&a), ["worktree", "add", "-b", "hotfix", "/w/repo-hotfix", "main"]);
}

#[test]
fn add_refuses_a_bare_or_empty_repository() {
    let (st, _) = add_start("x", None, None, None);
    let (st, _) = add_next(st, text("/w/repo"));
    let (_, a) = add_next(st, status(true, "TRUE", ""));
    assert!(matches!(a, AddAction::Fail(AppError::BareRepositoryNotSupported)));

    let (st, _) = add_start("x", None, None, None);
    let (st, _) = add_next(st, text("/w/repo"));
    let (st, _) = add_next(st, status(true, "false", ""));
    let (_, a) = add_next(st, status(false, "", ""));
    assert!(matches!(a, AddAction::Fail(AppError::EmptyRepository)));
}

#[test]
fn add_refuses_an_existing_target() {
    let (st, _) = add_start("x", None, None, None);
    let (st, _) = add_next(st, text("/w/repo"));
    let (st, _) = add_next(st, status(true, "false", ""));
    let (st, _) = add_next(st, status(true, "abc", ""));
    let (_, a) = add_next(st, AddEvent::Flag(true));
    match a {
        AddAction::Fail(AppError::PathAlreadyExists { path }) => assert_eq!(path, "/w/repo-x"),
        other => panic!("expected a refusal, got {other:?}"),
    }
}

#[test]
fn add_refuses_base_for_an_existing_branch() {
    let (st, _) = to_branch_checks("topic", Some("main"), None);
    let (st, _) = add_next(st, status(true, "", ""));
    let (_, a) = add_next(st, status(true, "", ""));
    match a {
        AddAction::Fail(AppError::BranchAlreadyExistsCannotSpecifyBaseOrTrack { branch }) => {
            assert_eq!(branch, "topic")
        }
        other => panic!("expected a refusal, got {other:?}"),
    }
}

#[test]
fn add_refuses_a_branch_checked_out_elsewhere() {
    let (st, _) = to_branch_checks("topic", None, None);
    let (st, _) = add_next(st, status(true, "", ""));
    let (st, a) = add_next(st, status(true, "", ""));
    assert!(matches!(a, AddAction::ListWorktrees));
    let ws = vec![WorktreeInfo {
        path: "/w/repo".to_owned(),
        name: "topic".to_owned(),
        branch: Some("topic".to_owned()),
        head_hash: "abc".to_owned(),
        head_msg: String::new(),
        status: WorktreeStatus::clean(),
    }];
    let (_, a) = add_next(st, AddEvent::Worktrees(Ok(ws)));
    match a {
        AddAction::Fail(AppError::BranchAlreadyCheckedOut { branch, path }) => {
            assert_eq!(branch, "topic");
            assert_eq!(path, "/w/repo");
        }
        other => panic!("expected a refusal, got {other:?}"),
    }
}

#[test]
fn add_existing_free_branch_is_checked_out() {
    let (st, _) = to_branch_checks("topic", None, None);
    let (st, _) = add_next(st, status(true, "", ""));
    let (st, _) = add_next(st, status(true, "", ""));
    let (st, a) = add_next(st, AddEvent::Worktrees(Ok(Vec::new())));
    assert!(matches!(a, AddAction::CreateDir(_)));
    let (_, a) = add_next(st, AddEvent::Done(Ok(())));
    assert_eq!(git_args(&a), ["worktree", "add", "/w/repo-topic", "topic"]);
}

#[test]
fn add_uses_a_custom_path() {
    let (st, _) = add_start("x", None, None, Some("../elsewhere"));
    let (st, _) = add_next(st, text("/w/repo"));
    let (st, _) = add_next(st, status(true, "false", ""));
    let (st, a) = add_next(st, status(true, "abc", ""));
    match &a {
        AddAction::MakeAbsolute(p) => assert_eq!(p, "../elsewhere"),
        other => panic!("expected the custom path, got {other:?}"),
    }
    let (_, a) = add_next(st, text("/w/elsewhere"));
    match a {
        AddAction::CheckExists(t) => assert_eq!(t, "/w/elsewhere"),
        other => panic!("expected a path check, got {other:?}"),
    }
}

#[test]
fn add_passes_on_outside_failures() {
    let (st, _) = add_start("x", None, None, None);
    let (_, a) = add_next(st, AddEvent::Text(Err(AppError::NotAGitRepository)));
    assert!(matches!(a, AddAction::Fail(AppError::NotAGitRepository)));

    let (st, _) = to_branch_checks("x", None, None);
    let (st, _) = add_next(st, status(false, "", ""));
    let (st, _) = add_next(st, status(true, "", ""));
    let (st, _) = add_next(st, AddEvent::Done(Ok(())));
    let (_, a) = add_next(st, status(false, "", "fatal: invalid reference"));
    match a {
        AddAction::Fail(AppError::GitError { message }) => assert_eq!(message, "fatal: invalid reference"),
        other => panic!("expected a git error, got {other:?}"),
    }
}

#[test]
fn add_asks_again_for_an_answer_of_another_kind() {
    let (st, _) = add_start("x", None, None, None);
    let (st, a) = add_next(st, AddEvent::Flag(true));
    assert!(matches!(a, AddAction::FindMainRoot));
    assert_eq!(st.stage(), AddStage::MainRoot);
}

#[test]
fn add_refuses_an_uninferable_branch_name() {
    let (st, _) = add_start("///", None, None, None);
    let (st, _) = add_next(st, text("/w/repo"));
    let (st, _) = add_next(st, status(true, "false", ""));
    let (_, a) = add_next(st, status(true, "abc", ""));
    match a {
        AddAction::Fail(AppError::PathInferenceFailed { reason }) => {
            assert_eq!(reason, "invalid branch name for worktree path")
        }
        other => panic!("expected a refusal, got {other:?}"),
    }
}
