use git_worktree_smart::error::AppError;
use git_worktree_smart::git::resolve::{
    pick_fuzzy, resolve_from_worktrees, resolve_from_worktrees_with_paths,
};
use git_worktree_smart::models::{WorktreeInfo, WorktreeStatus};

fn worktree(name: &str, branch: Option<&str>) -> WorktreeInfo {
    WorktreeInfo {
        path: format!("/repos/project-{name}"),
        name: name.to_owned(),
        branch: branch.map(|b| b.to_owned()),
        head_hash: "abc1234".to_owned(),
        head_msg: "latest commit".to_owned(),
        status: WorktreeStatus::clean(),
    }
}

fn mock_worktrees() -> Vec<WorktreeInfo> {
    vec![
        worktree("main", Some("main")),
        worktree("feature/login", Some("feature/login")),
        worktree("feature/logout", Some("feature/logout")),
        worktree("hotfix", Some("hotfix/bug")),
    ]
}

fn at(path: &str, name: &str) -> WorktreeInfo {
    WorktreeInfo {
        path: path.to_owned(),
        name: name.to_owned(),
        branch: Some(name.to_owned()),
        head_hash: "abc1234".to_owned(),
        head_msg: "msg".to_owned(),
        status: WorktreeStatus::clean(),
    }
}

#[test]
fn test_exact_match_name() {
    let result = resolve_from_worktrees(&mock_worktrees(), "main").unwrap();
    assert_eq!(result.name, "main");
}

#[test]
fn test_exact_match_branch() {
    let result = resolve_from_worktrees(&mock_worktrees(), "feature/login").unwrap();
    assert_eq!(result.name, "feature/login");
}

#[test]
fn test_exact_match_path() {
    let result = resolve_from_worktrees(&mock_worktrees(), "/repos/project-hotfix").unwrap();
    assert_eq!(result.name, "hotfix");
}

#[test]
fn test_substring_unique_match() {
    let result = resolve_from_worktrees(&mock_worktrees(), "logi").unwrap();
    assert_eq!(result.name, "feature/login");
}

#[test]
fn test_substring_unique_match_branch() {
    let result = resolve_from_worktrees(&mock_worktrees(), "hotfix/bug").unwrap();
    assert_eq!(result.name, "hotfix");
}

#[test]
fn test_substring_ambiguous_returns_multiple_error() {
    let result = resolve_from_worktrees(&mock_worktrees(), "log");
    assert!(result.is_err());
    match result.unwrap_err() {
        AppError::MultipleWorktreesMatch { query } => assert_eq!(query, "log"),
        other => panic!("expected MultipleWorktreesMatch, got {other:?}"),
    }
}

#[test]
fn test_fuzzy_match() {
    let result = resolve_from_worktrees(&mock_worktrees(), "f/logi").unwrap();
    assert_eq!(result.name, "feature/login");
}

#[test]
fn test_fuzzy_match_ambiguous() {
    let result = resolve_from_worktrees(&mock_worktrees(), "f/l");
    assert!(result.is_err());
    match result.unwrap_err() {
        AppError::MultipleWorktreesMatch { query } => assert_eq!(query, "f/l"),
        other => panic!("expected MultipleWorktreesMatch, got {other:?}"),
    }
}

#[test]
fn test_low_scoring_fuzzy_query_returns_not_found() {
    let result = resolve_from_worktrees(&mock_worktrees(), "xyz");
    match result {
        Err(AppError::WorktreeNotFound { query }) => assert_eq!(query, "xyz"),
        other => panic!("expected WorktreeNotFound, got {other:?}"),
    }
}

#[test]
fn test_weak_fuzzy_query_returns_not_found() {
    let result = resolve_from_worktrees(&mock_worktrees(), "li");
    assert!(
        matches!(result, Err(AppError::WorktreeNotFound { .. })),
        "expected WorktreeNotFound, got {result:?}"
    );
}

#[test]
fn test_random_low_relevance_query_returns_not_found() {
    let result = resolve_from_worktrees(&mock_worktrees(), "qzxv");
    assert!(
        matches!(result, Err(AppError::WorktreeNotFound { .. })),
        "expected WorktreeNotFound, got {result:?}"
    );
}

#[test]
fn test_not_found() {
    let result = resolve_from_worktrees(&mock_worktrees(), "zzz");
    assert!(result.is_err());
    match result.unwrap_err() {
        AppError::WorktreeNotFound { query } => assert_eq!(query, "zzz"),
        other => panic!("expected WorktreeNotFound, got {other:?}"),
    }
}

#[test]
fn test_empty_worktrees() {
    let result = resolve_from_worktrees(&[].to_vec(), "main");
    assert!(result.is_err());
}

#[test]
fn substring_match_ignores_case() {
    let result = resolve_from_worktrees(&mock_worktrees(), "LOGIN").unwrap();
    assert_eq!(result.name, "feature/login");
    let result = resolve_from_worktrees(&mock_worktrees(), "MaIn").unwrap();
    assert_eq!(result.name, "main");
}

#[test]
fn test_path_resolves_dot_to_enclosing_worktree() {
    let worktrees = vec![at("/tmp/x/project-feat", "feat")];
    let canons = vec![Some("/tmp/x/project-feat".to_owned())];
    let result =
        resolve_from_worktrees_with_paths(&worktrees, ".", Some("/tmp/x/project-feat"), &canons)
            .unwrap();
    assert_eq!(result.name, "feat");
    let result = resolve_from_worktrees_with_paths(
        &worktrees,
        "/tmp/x/project-feat",
        Some("/tmp/x/project-feat"),
        &canons,
    )
    .unwrap();
    assert_eq!(result.name, "feat");
}

#[test]
fn test_path_resolves_subdirectory_to_enclosing_worktree() {
    let worktrees = vec![at("/tmp/x/project-feat", "feat")];
    let canons = vec![Some("/tmp/x/project-feat".to_owned())];
    let result = resolve_from_worktrees_with_paths(
        &worktrees,
        "/tmp/x/project-feat/src/nested",
        Some("/tmp/x/project-feat/src/nested"),
        &canons,
    )
    .unwrap();
    assert_eq!(result.name, "feat");
}

#[test]
fn test_path_nested_worktrees_prefers_deepest_match() {
    let worktrees = vec![at("/tmp/x/outer/inner", "inner"), at("/tmp/x/outer", "outer")];
    let canons = vec![Some("/tmp/x/outer/inner".to_owned()), Some("/tmp/x/outer".to_owned())];
    let result = resolve_from_worktrees_with_paths(
        &worktrees,
        "/tmp/x/outer/inner",
        Some("/tmp/x/outer/inner"),
        &canons,
    );
    assert_eq!(result.unwrap().name, "inner");
    let result = resolve_from_worktrees_with_paths(
        &worktrees,
        "/tmp/x/outer/other",
        Some("/tmp/x/outer/other"),
        &canons,
    );
    assert_eq!(result.unwrap().name, "outer");
}

#[test]
fn path_prefix_compares_whole_components() {
    let worktrees = vec![at("/tmp/x/sub", "sub")];
    let canons = vec![Some("/tmp/x/sub".to_owned())];
    let result = resolve_from_worktrees_with_paths(
        &worktrees,
        "/tmp/x/submarine",
        Some("/tmp/x/submarine"),
        &canons,
    );
    assert!(matches!(result, Err(AppError::WorktreeNotFound { .. })));
}

#[test]
fn pick_fuzzy_takes_unique_top_score() {
    let wts = mock_worktrees();
    let r = pick_fuzzy(&wts, "q", &vec![Some(10), Some(60), Some(55), None], &vec![Some(41)]);
    assert_eq!(r.unwrap().name, "feature/login");
    let r = pick_fuzzy(&wts, "q", &vec![Some(50), None, None, Some(50)], &vec![]);
    assert!(matches!(r, Err(AppError::MultipleWorktreesMatch { .. })));
    let r = pick_fuzzy(&wts, "q", &vec![Some(39), None], &vec![None, Some(12)]);
    assert!(matches!(r, Err(AppError::WorktreeNotFound { .. })));
    let r = pick_fuzzy(&wts, "q", &vec![Some(39), Some(40)], &vec![Some(45)]);
    assert_eq!(r.unwrap().name, "main");
}
