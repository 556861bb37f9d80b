use git_worktree_smart::cli::{context, dispatch, Cli, Commands, Invocation};
use git_worktree_smart::cmd::add::{
    check_existing_branch, check_not_checked_out, check_repository, check_target_free,
    is_bare_answer,
};
use git_worktree_smart::cmd::list::{active_index, list_order, sort_worktrees};
use git_worktree_smart::cmd::prune::{
    prune_after_list, prune_after_run, prune_start, run, PruneAction, PrunePlan, PruneReport,
};
use git_worktree_smart::cmd::remove::{remove_next, remove_start, RemoveAction, RemoveCheck};
use git_worktree_smart::error::AppError;
use git_worktree_smart::git::command::CommandStatus;
use git_worktree_smart::git::probe::{probe_next, probe_start, ProbeAction, ProbeStep};
use git_worktree_smart::models::{WorktreeInfo, WorktreeStatus};

fn wt(name: &str, branch: Option<&str>, status: WorktreeStatus) -> WorktreeInfo {
    WorktreeInfo {
        path: format!("/r/{name}"),
        name: name.to_owned(),
        branch: branch.map(|b| b.to_owned()),
        head_hash: "abc1234".to_owned(),
        head_msg: String::new(),
        status,
    }
}

fn ok(stdout: &str) -> Result<CommandStatus, AppError> {
    Ok(CommandStatus { success: true, stdout: stdout.to_owned(), stderr: String::new() })
}

fn failed() -> Result<CommandStatus, AppError> {
    Ok(CommandStatus { success: false, stdout: String::new(), stderr: String::new() })
}

fn asked(a: &ProbeAction) -> ProbeStep {
    match a {
        ProbeAction::Run(s, _) => *s,
        other => panic!("expected a question, got {other:?}"),
    }
}

#[test]
fn probe_with_upstream_counts_both_ways() {
    let a = probe_start();
    assert_eq!(asked(&a), ProbeStep::SymbolicRef);
    if let ProbeAction::Run(_, args) = &a {
        assert_eq!(args, &vec!["symbolic-ref", "--quiet", "--short", "HEAD"]);
    }
    let a = probe_next(ProbeStep::SymbolicRef, ok("main"));
    assert_eq!(asked(&a), ProbeStep::Upstream);
    let a = probe_next(ProbeStep::Upstream, ok("abc"));
    assert_eq!(asked(&a), ProbeStep::LeftRight);
    match probe_next(ProbeStep::LeftRight, ok("2\t7")) {
        ProbeAction::Done(2, 7) => {}
        other => panic!("expected (2, 7), got {other:?}"),
    }
}

#[test]
fn probe_detached_head_reports_nothing() {
    assert!(matches!(probe_next(ProbeStep::SymbolicRef, failed()), ProbeAction::Done(0, 0)));
    assert!(matches!(
        probe_next(ProbeStep::SymbolicRef, Err(AppError::GitNotFound)),
        ProbeAction::Done(0, 0)
    ));
}

#[test]
fn probe_left_right_failure_is_an_error() {
    let r = probe_next(
        ProbeStep::LeftRight,
        Ok(CommandStatus { success: false, stdout: String::new(), stderr: "boom".to_owned() }),
    );
    match r {
        ProbeAction::Fail(AppError::GitError { message }) => assert_eq!(message, "boom"),
        other => panic!("expected a failure, got {other:?}"),
    }
    assert!(matches!(
        probe_next(ProbeStep::LeftRight, Err(AppError::GitNotFound)),
        ProbeAction::Fail(AppError::GitNotFound)
    ));
}

#[test]
fn probe_falls_back_to_default_branches() {
    let a = probe_next(ProbeStep::Upstream, failed());
    assert_eq!(asked(&a), ProbeStep::BaseExists(0));
    if let ProbeAction::Run(_, args) = &a {
        assert_eq!(args, &vec!["rev-parse", "--verify", "--quiet", "refs/remotes/origin/HEAD"]);
    }
    let a = probe_next(ProbeStep::BaseExists(0), failed());
    assert_eq!(asked(&a), ProbeStep::BaseExists(1));
    let a = probe_next(ProbeStep::BaseExists(1), ok(""));
    assert_eq!(asked(&a), ProbeStep::BaseCount(1));
    if let ProbeAction::Run(_, args) = &a {
        assert_eq!(args, &vec!["rev-list", "--count", "HEAD", "^refs/heads/main"]);
    }
    match probe_next(ProbeStep::BaseCount(1), ok(" 4 ")) {
        ProbeAction::Done(4, 0) => {}
        other => panic!("expected (4, 0), got {other:?}"),
    }
    let a = probe_next(ProbeStep::BaseCount(2), failed());
    assert_eq!(asked(&a), ProbeStep::BaseExists(3));
    assert!(matches!(probe_next(ProbeStep::BaseExists(4), failed()), ProbeAction::Done(0, 0)));
    assert!(matches!(probe_next(ProbeStep::BaseCount(4), ok("x")), ProbeAction::Done(0, 0)));
}

fn decide(info: &WorktreeInfo, force: bool, answers: &[bool]) -> RemoveAction {
    let mut action = remove_start();
    let mut answers = answers.iter();
    loop {
        match action {
            RemoveAction::Ask(check) => {
                let answer = *answers.next().expect("an answer for every question");
                action = remove_next(info, force, check, answer);
            }
            done => return done,
        }
    }
}

#[test]
fn removal_refuses_missing_main_and_active_even_forced() {
    let w = wt("feat", Some("feat"), WorktreeStatus::clean());
    for force in [false, true] {
        assert!(matches!(
            decide(&w, force, &[false]),
            RemoveAction::Refuse(AppError::StaleWorktree { .. })
        ));
        assert!(matches!(
            decide(&w, force, &[true, true]),
            RemoveAction::Refuse(AppError::CannotRemoveMainWorktree { .. })
        ));
        assert!(matches!(
            decide(&w, force, &[true, false, true]),
            RemoveAction::Refuse(AppError::CannotRemoveActiveWorktree { .. })
        ));
    }
}

#[test]
fn removal_guards_unsaved_work_unless_forced() {
    let dirty = wt("d", Some("d"), WorktreeStatus { is_dirty: true, is_stale: false, ahead: 2, behind: 0 });
    match decide(&dirty, false, &[true, false, false]) {
        RemoveAction::Refuse(AppError::WorktreeIsDirty { path }) => assert_eq!(path, "/r/d"),
        other => panic!("expected a refusal, got {other:?}"),
    }
    match decide(&dirty, true, &[true, false, false]) {
        RemoveAction::Remove(args) => assert_eq!(args, vec!["worktree", "remove", "--force", "/r/d"]),
        other => panic!("expected removal, got {other:?}"),
    }
    let ahead = wt("a", Some("a"), WorktreeStatus { is_dirty: false, is_stale: false, ahead: 3, behind: 0 });
    match decide(&ahead, false, &[true, false, false]) {
        RemoveAction::Refuse(AppError::UnpushedCommits { ahead, .. }) => assert_eq!(ahead, 3),
        other => panic!("expected a refusal, got {other:?}"),
    }
    let detached = wt("h", None, WorktreeStatus::clean());
    assert!(matches!(
        decide(&detached, false, &[true, false, false, false]),
        RemoveAction::Refuse(AppError::DetachedHeadWithUnreachableCommits { .. })
    ));
    match decide(&detached, false, &[true, false, false, true]) {
        RemoveAction::Remove(args) => assert_eq!(args, vec!["worktree", "remove", "/r/h"]),
        other => panic!("expected removal, got {other:?}"),
    }
    let clean = wt("c", Some("c"), WorktreeStatus::clean());
    assert!(matches!(decide(&clean, false, &[true, false, false]), RemoveAction::Remove(_)));
    assert!(matches!(
        remove_next(&clean, false, RemoveCheck::Exists, true),
        RemoveAction::Ask(RemoveCheck::IsMain)
    ));
}

#[test]
fn add_checks() {
    assert!(is_bare_answer(" TRUE\n"));
    assert!(is_bare_answer("true"));
    assert!(!is_bare_answer("false"));
    assert!(!is_bare_answer("truee"));
    assert!(matches!(check_repository(true, true), Err(AppError::BareRepositoryNotSupported)));
    assert!(matches!(check_repository(false, false), Err(AppError::EmptyRepository)));
    assert!(check_repository(false, true).is_ok());
    match check_target_free("/p", true) {
        Err(AppError::PathAlreadyExists { path }) => assert_eq!(path, "/p"),
        other => panic!("expected PathAlreadyExists, got {other:?}"),
    }
    assert!(check_target_free("/p", false).is_ok());
    match check_existing_branch("main", true, Some("dev"), None) {
        Err(AppError::BranchAlreadyExistsCannotSpecifyBaseOrTrack { branch }) => {
            assert_eq!(branch, "main")
        }
        other => panic!("expected a refusal, got {other:?}"),
    }
    assert!(check_existing_branch("main", true, None, None).is_ok());
    assert!(check_existing_branch("main", false, Some("dev"), Some("origin/dev")).is_ok());
}

#[test]
fn add_refuses_checked_out_branch() {
    let wts = vec![
        wt("main", Some("main"), WorktreeStatus::clean()),
        wt("x", Some("feature/x"), WorktreeStatus::clean()),
        wt("y", Some("feature/x"), WorktreeStatus::clean()),
    ];
    match check_not_checked_out(&wts, "feature/x") {
        Err(AppError::BranchAlreadyCheckedOut { branch, path }) => {
            assert_eq!(branch, "feature/x");
            assert_eq!(path, "/r/x");
        }
        other => panic!("expected BranchAlreadyCheckedOut, got {other:?}"),
    }
    assert!(check_not_checked_out(&wts, "feature").is_ok());
}

#[test]
fn list_puts_main_first_then_names() {
    let s = WorktreeStatus::clean();
    let wts = vec![
        wt("zeta", Some("zeta"), s),
        wt("alpha", Some("alpha"), s),
        wt("main", Some("main"), s),
        wt("Beta", None, s),
        wt("alpha", None, s),
    ];
    let mains = vec![false, false, true, false, false];
    assert_eq!(list_order(&wts, &mains), vec![2, 3, 1, 4, 0]);
    let sorted = sort_worktrees(&wts, &mains);
    let names: Vec<&str> = sorted.iter().map(|w| w.name.as_str()).collect();
    assert_eq!(names, vec!["main", "Beta", "alpha", "alpha", "zeta"]);
    assert_eq!(sorted[2].branch.as_deref(), Some("alpha"));
    assert_eq!(list_order(&wts, &vec![]), vec![3, 1, 4, 2, 0]);
    assert_eq!(list_order(&vec![], &vec![]), Vec::<usize>::new());
}

#[test]
fn active_worktree_index() {
    let paths = vec!["/a".to_owned(), "/b".to_owned(), "/b".to_owned()];
    assert_eq!(active_index(&paths, "/b"), Some(1));
    assert_eq!(active_index(&paths, "/c"), None);
}

#[test]
fn prune_plans() {
    assert_eq!(run(false, false), PrunePlan { execute: false, report: PruneReport::Preview });
    assert_eq!(run(true, false), PrunePlan { execute: true, report: PruneReport::Pruned });
    assert_eq!(run(true, true), PrunePlan { execute: true, report: PruneReport::Json });
    assert_eq!(run(false, true), PrunePlan { execute: false, report: PruneReport::Json });
}

#[test]
fn dispatch_joins_query_words() {
    let cli = Cli {
        json: true,
        verbose: false,
        command: Some(Commands::Remove { target: vec!["feature".to_owned(), "auth".to_owned()], force: true }),
    };
    match dispatch(&cli) {
        Invocation::Remove { query, force } => {
            assert_eq!(query, "feature auth");
            assert!(force);
        }
        _ => panic!("expected remove"),
    }
    let ctx = context(&cli);
    assert!(ctx.json && !ctx.verbose);
    let cli = Cli { json: false, verbose: true, command: None };
    assert!(matches!(dispatch(&cli), Invocation::List));
    let cli = Cli {
        json: false,
        verbose: false,
        command: Some(Commands::Path { target: vec!["login".to_owned()] }),
    };
    match dispatch(&cli) {
        Invocation::Path { query } => assert_eq!(query, "login"),
        _ => panic!("expected path"),
    }
}

#[test]
fn prune_reads_the_stale_list_before_pruning() {
    assert!(matches!(prune_start(), PruneAction::ListStale));
    let stale = vec!["/r/old".to_owned()];
    match prune_after_list(true, false, Ok(stale.clone())) {
        PruneAction::RunGit { args, stale: s } => {
            assert_eq!(args, vec!["worktree", "prune"]);
            assert_eq!(s, stale);
        }
        other => panic!("expected the prune, got {other:?}"),
    }
    match prune_after_list(false, false, Ok(stale.clone())) {
        PruneAction::Report(PruneReport::Preview, s) => assert_eq!(s, stale),
        other => panic!("expected the preview, got {other:?}"),
    }
    match prune_after_list(false, true, Ok(stale.clone())) {
        PruneAction::Report(PruneReport::Json, s) => assert_eq!(s, stale),
        other => panic!("expected the JSON report, got {other:?}"),
    }
    assert!(matches!(
        prune_after_list(true, false, Err(AppError::NotAGitRepository)),
        PruneAction::Fail(AppError::NotAGitRepository)
    ));
}

#[test]
fn prune_reports_what_it_pruned_or_the_failure() {
    let stale = vec!["/r/old".to_owned()];
    match prune_after_run(false, stale.clone(), ok("")) {
        PruneAction::Report(PruneReport::Pruned, s) => assert_eq!(s, stale),
        other => panic!("expected the report, got {other:?}"),
    }
    match prune_after_run(true, stale.clone(), ok("")) {
        PruneAction::Report(PruneReport::Json, s) => assert_eq!(s, stale),
        other => panic!("expected the JSON report, got {other:?}"),
    }
    let failed_run = Ok(CommandStatus { success: false, stdout: String::new(), stderr: "fatal: locked".to_owned() });
    match prune_after_run(false, stale, failed_run) {
        PruneAction::Fail(AppError::GitError { message }) => assert_eq!(message, "fatal: locked"),
        other => panic!("expected the failure, got {other:?}"),
    }
}
