use std::path::PathBuf;

use git_worktree_smart::error::AppError;
use git_worktree_smart::git::parse::{
    apply_details, derive_name, get_worktree_info, get_worktree_status, head_lookup, head_message,
    info_with_head, info_with_subject, resolve_stale_paths, InfoStep,
    infer_worktree_path, parse_dirty, parse_prune_dry_run, parse_rev_list_count,
    parse_worktree_list, resolve_stale_path, sanitize_branch_name, stale_admin_dir, HeadLookup,
};
use git_worktree_smart::models::WorktreeStatus;

const SINGLE_WORKTREE: &str = "\
worktree /Users/dev/my-repo
HEAD abc1234
branch refs/heads/main";

const DETACHED_HEAD: &str = "\
worktree /Users/dev/my-repo
HEAD deadbeef";

const TWO_WORKTREES: &str = "\
worktree /Users/dev/my-repo
HEAD abc1234
branch refs/heads/main

worktree /Users/dev/my-repo-feature
HEAD def5678
branch refs/heads/feature/auth";

const THREE_WORKTREES_DETACHED: &str = "\
worktree /Users/dev/my-repo
HEAD abc1234
branch refs/heads/main

worktree /Users/dev/my-repo-experiment
HEAD 1111111
branch refs/heads/experiment

worktree /tmp/worktrees/hotfix
HEAD 2222222";

const WORKTREE_EXTRA_KEYS: &str = "\
worktree /Users/dev/my-repo
HEAD abc1234
branch refs/heads/main
bare
locked";

#[test]
fn test_parse_single_worktree() {
    let result = parse_worktree_list(SINGLE_WORKTREE);
    assert_eq!(result.len(), 1);

    let wt = &result[0];
    assert_eq!(PathBuf::from(&wt.path), PathBuf::from("/Users/dev/my-repo"));
    assert_eq!(wt.name, "main");
    assert_eq!(wt.branch.as_deref(), Some("main"));
    assert_eq!(wt.head_hash, "abc1234");
    assert!(wt.head_msg.is_empty());
    assert!(wt.status.is_clean());
}

#[test]
fn test_parse_detached_head() {
    let result = parse_worktree_list(DETACHED_HEAD);
    assert_eq!(result.len(), 1);

    let wt = &result[0];
    assert_eq!(PathBuf::from(&wt.path), PathBuf::from("/Users/dev/my-repo"));
    assert_eq!(wt.name, "my-repo");
    assert!(wt.branch.is_none());
    assert_eq!(wt.head_hash, "deadbeef");
}

#[test]
fn test_parse_two_worktrees() {
    let result = parse_worktree_list(TWO_WORKTREES);
    assert_eq!(result.len(), 2);

    assert_eq!(result[0].branch.as_deref(), Some("main"));
    assert_eq!(result[0].name, "main");

    assert_eq!(result[1].branch.as_deref(), Some("feature/auth"));
    assert_eq!(result[1].name, "feature/auth");
    assert_eq!(PathBuf::from(&result[1].path), PathBuf::from("/Users/dev/my-repo-feature"));
}

#[test]
fn test_parse_three_mixed_detached() {
    let result = parse_worktree_list(THREE_WORKTREES_DETACHED);
    assert_eq!(result.len(), 3);

    assert_eq!(result[0].branch.as_deref(), Some("main"));
    assert_eq!(result[1].branch.as_deref(), Some("experiment"));
    assert!(result[2].branch.is_none());
    assert_eq!(result[2].name, "hotfix");
    assert_eq!(result[2].head_hash, "2222222");
}

#[test]
fn test_parse_extra_keys_ignored() {
    let result = parse_worktree_list(WORKTREE_EXTRA_KEYS);
    assert_eq!(result.len(), 1);

    let wt = &result[0];
    assert_eq!(PathBuf::from(&wt.path), PathBuf::from("/Users/dev/my-repo"));
    assert_eq!(wt.head_hash, "abc1234");
}

#[test]
fn test_parse_empty_input() {
    let result = parse_worktree_list("");
    assert!(result.is_empty());
}

#[test]
fn test_parse_empty_path_returns_nothing() {
    let result = parse_worktree_list("HEAD abc1234");
    assert!(result.is_empty());
}

#[test]
fn test_parse_branch_strips_refs_heads() {
    let result = parse_worktree_list(THREE_WORKTREES_DETACHED);
    for wt in &result {
        if let Some(ref b) = wt.branch {
            assert!(
                !b.starts_with("refs/heads/"),
                "branch should be stripped: {b}"
            );
        }
    }
}

#[test]
fn parse_handles_crlf_and_trailing_newline() {
    let raw = "worktree /a/b\r\nHEAD 1234567\r\nbranch refs/heads/dev\r\n\r\n";
    let result = parse_worktree_list(raw);
    assert_eq!(result.len(), 1);
    assert_eq!(result[0].path, "/a/b");
    assert_eq!(result[0].head_hash, "1234567");
    assert_eq!(result[0].name, "dev");
}

#[test]
fn parse_later_key_replaces_earlier() {
    let raw = "worktree /first\nworktree /second\nHEAD 1\n";
    let result = parse_worktree_list(raw);
    assert_eq!(result.len(), 1);
    assert_eq!(result[0].path, "/second");
}

#[test]
fn test_parse_dirty_clean() {
    assert!(!parse_dirty(""));
    assert!(!parse_dirty("  \n  "));
}

#[test]
fn test_parse_dirty_with_changes() {
    assert!(parse_dirty(" M src/main.rs"));
    assert!(parse_dirty("?? new_file.txt"));
    assert!(parse_dirty("A  staged.rs\n M modified.rs"));
}

#[test]
fn test_parse_rev_list_ahead() {
    let (ahead, behind) = parse_rev_list_count("3  0");
    assert_eq!(ahead, 3);
    assert_eq!(behind, 0);
}

#[test]
fn test_parse_rev_list_behind() {
    let (ahead, behind) = parse_rev_list_count("0  5");
    assert_eq!(ahead, 0);
    assert_eq!(behind, 5);
}

#[test]
fn test_parse_rev_list_both() {
    let (ahead, behind) = parse_rev_list_count("2  7");
    assert_eq!(ahead, 2);
    assert_eq!(behind, 7);
}

#[test]
fn test_parse_rev_list_synced() {
    let (ahead, behind) = parse_rev_list_count("0  0");
    assert_eq!(ahead, 0);
    assert_eq!(behind, 0);
}

#[test]
fn test_parse_rev_list_empty() {
    let (ahead, behind) = parse_rev_list_count("");
    assert_eq!(ahead, 0);
    assert_eq!(behind, 0);
}

#[test]
fn test_parse_rev_list_malformed() {
    let (ahead, behind) = parse_rev_list_count("not-a-number");
    assert_eq!(ahead, 0);
    assert_eq!(behind, 0);
}

#[test]
fn test_parse_rev_list_single_value() {
    let (ahead, behind) = parse_rev_list_count("5");
    assert_eq!(ahead, 0);
    assert_eq!(behind, 0);
}

#[test]
fn parse_rev_list_number_edge_cases() {
    assert_eq!(parse_rev_list_count("\t+12\n4294967295 "), (12, 4294967295));
    assert_eq!(parse_rev_list_count("4294967296 -1"), (0, 0));
    assert_eq!(parse_rev_list_count("+ 7 x"), (0, 7));
    assert_eq!(parse_rev_list_count("1 2 3"), (1, 2));
}

#[test]
fn printed_rev_list_counts_read_back() {
    for (a, b) in [(0u32, 0u32), (7, 19), (4294967295, 1)] {
        assert_eq!(parse_rev_list_count(&format!("{a}\t{b}")), (a, b));
        assert_eq!(parse_rev_list_count(&format!("{a}\t{b}\n")), (a, b));
    }
}

#[test]
fn test_status_clean() {
    let s = WorktreeStatus::clean();
    assert!(!s.is_dirty);
    assert_eq!(s.ahead, 0);
    assert_eq!(s.behind, 0);
    assert!(s.is_clean());
}

#[test]
fn test_status_display_variants() {
    assert_eq!(WorktreeStatus::clean().display_string(), "clean");

    assert_eq!(
        WorktreeStatus {
            is_dirty: true,
            is_stale: false,
            ahead: 0,
            behind: 0
        }
        .display_string(),
        "dirty"
    );

    assert_eq!(
        WorktreeStatus {
            is_dirty: false,
            is_stale: false,
            ahead: 3,
            behind: 0
        }
        .display_string(),
        "ahead 3"
    );

    assert_eq!(
        WorktreeStatus {
            is_dirty: false,
            is_stale: false,
            ahead: 0,
            behind: 2
        }
        .display_string(),
        "behind 2"
    );

    assert_eq!(
        WorktreeStatus {
            is_dirty: false,
            is_stale: false,
            ahead: 1,
            behind: 4
        }
        .display_string(),
        "ahead 1, behind 4"
    );

    assert_eq!(
        WorktreeStatus {
            is_dirty: true,
            is_stale: false,
            ahead: 2,
            behind: 0
        }
        .display_string(),
        "dirty, ahead 2"
    );

    assert_eq!(
        WorktreeStatus {
            is_dirty: true,
            is_stale: false,
            ahead: 0,
            behind: 3
        }
        .display_string(),
        "dirty, behind 3"
    );

    assert_eq!(
        WorktreeStatus {
            is_dirty: true,
            is_stale: false,
            ahead: 1,
            behind: 1
        }
        .display_string(),
        "dirty, ahead 1, behind 1"
    );
}

#[test]
fn status_display_of_large_counts() {
    let s = WorktreeStatus { is_dirty: false, is_stale: true, ahead: 4294967295, behind: 10 };
    assert_eq!(s.display_string(), "ahead 4294967295, behind 10");
}

#[test]
fn test_is_clean_respects_all_fields() {
    assert!(WorktreeStatus {
        is_dirty: false,
        is_stale: false,
        ahead: 0,
        behind: 0
    }
    .is_clean());
    assert!(!WorktreeStatus {
        is_dirty: true,
        is_stale: false,
        ahead: 0,
        behind: 0
    }
    .is_clean());
    assert!(!WorktreeStatus {
        is_dirty: false,
        is_stale: false,
        ahead: 1,
        behind: 0
    }
    .is_clean());
    assert!(!WorktreeStatus {
        is_dirty: false,
        is_stale: false,
        ahead: 0,
        behind: 1
    }
    .is_clean());
}

#[test]
fn test_derive_name_from_branch() {
    let name = derive_name("/foo/bar", Some("feature/auth"));
    assert_eq!(name, "feature/auth");
}

#[test]
fn test_derive_name_from_path() {
    let name = derive_name("/tmp/worktrees/hotfix", None);
    assert_eq!(name, "hotfix");
}

#[test]
fn test_derive_name_root_path() {
    let name = derive_name("/", None);
    assert_eq!(name, "unknown");
}

#[test]
fn derive_name_ignores_trailing_separators_and_dots() {
    assert_eq!(derive_name("/tmp/hotfix/", None), "hotfix");
    assert_eq!(derive_name("/tmp/hotfix/.", None), "hotfix");
    assert_eq!(derive_name("/tmp/..", None), "unknown");
    assert_eq!(derive_name("", None), "unknown");
}

#[test]
fn test_sanitize_simple_name() {
    assert_eq!(sanitize_branch_name("feature"), "feature");
}

#[test]
fn test_sanitize_slash_to_hyphen() {
    assert_eq!(sanitize_branch_name("feature/auth"), "feature-auth");
}

#[test]
fn test_sanitize_deep_nested() {
    assert_eq!(
        sanitize_branch_name("feature/user/auth-v2"),
        "feature-user-auth-v2"
    );
}

#[test]
fn test_sanitize_special_chars() {
    assert_eq!(sanitize_branch_name("fix@bug!"), "fix-bug-");
}

#[test]
fn test_sanitize_dots_underscores_hyphens_preserved() {
    assert_eq!(sanitize_branch_name("v2.0_hotfix-1"), "v2.0_hotfix-1");
}

#[test]
fn test_sanitize_empty() {
    assert_eq!(sanitize_branch_name(""), "");
}

#[test]
fn sanitize_keeps_unicode_letters_and_is_idempotent() {
    assert_eq!(sanitize_branch_name("café/ü"), "café-ü");
    let once = sanitize_branch_name("a b/c:d");
    assert_eq!(once, "a-b-c-d");
    assert_eq!(sanitize_branch_name(&once), once);
}

#[test]
fn test_infer_worktree_path() {
    let path = infer_worktree_path("/src/api", "feature/login");
    assert_eq!(PathBuf::from(path.unwrap()), PathBuf::from("/src/api-feature-login"));
}

#[test]
fn test_infer_worktree_path_simple_branch() {
    let path = infer_worktree_path("/Users/dev/my-repo", "hotfix");
    assert_eq!(PathBuf::from(path.unwrap()), PathBuf::from("/Users/dev/my-repo-hotfix"));
}

#[test]
fn test_infer_worktree_path_special_chars() {
    let path = infer_worktree_path("/projects/web", "fix/urgent-bug");
    assert_eq!(PathBuf::from(path.unwrap()), PathBuf::from("/projects/web-fix-urgent-bug"));
}

#[test]
fn infer_worktree_path_errors() {
    match infer_worktree_path("/", "feature") {
        Err(AppError::PathInferenceFailed { reason }) => {
            assert_eq!(reason, "cannot extract repo name from /")
        }
        other => panic!("expected PathInferenceFailed, got {other:?}"),
    }
    match infer_worktree_path("/src/api", "///") {
        Err(AppError::PathInferenceFailed { reason }) => {
            assert_eq!(reason, "invalid branch name for worktree path")
        }
        other => panic!("expected PathInferenceFailed, got {other:?}"),
    }
    match infer_worktree_path("/src/api", "") {
        Err(AppError::PathInferenceFailed { reason }) => {
            assert_eq!(reason, "invalid branch name for worktree path")
        }
        other => panic!("expected PathInferenceFailed, got {other:?}"),
    }
    assert_eq!(infer_worktree_path("repo", "x").unwrap(), "repo-x");
    assert_eq!(infer_worktree_path("/repo/", "x").unwrap(), "/repo-x");
}

#[test]
fn test_parse_prune_dry_run_empty() {
    assert!(parse_prune_dry_run("").is_empty());
    assert!(parse_prune_dry_run("nothing here\n").is_empty());
}

#[test]
fn test_parse_prune_dry_run_single() {
    let out = "Removing worktree: /home/dev/proj-stale\n";
    let result = parse_prune_dry_run(out);
    assert_eq!(result, vec!["/home/dev/proj-stale".to_owned()]);
}

#[test]
fn test_parse_prune_dry_run_multiple() {
    let out = "Removing worktree: /a/b\n\
Removing worktree: /c/d\n\
Removing worktree: /e/f\n";
    let result = parse_prune_dry_run(out);
    assert_eq!(
        result,
        vec!["/a/b".to_owned(), "/c/d".to_owned(), "/e/f".to_owned()]
    );
}

#[test]
fn test_parse_prune_dry_run_ignores_other_lines() {
    let out = "Removing worktree: /only-path\n\
Some other message: not a removal\n\
Removing worktree: /second\n";
    let result = parse_prune_dry_run(out);
    assert_eq!(result, vec!["/only-path".to_owned(), "/second".to_owned()]);
}

#[test]
fn test_parse_prune_dry_run_paths_with_spaces() {
    let out = "Removing worktree: /home/user/my project\n";
    let result = parse_prune_dry_run(out);
    assert_eq!(result, vec!["/home/user/my project".to_owned()]);
}

#[test]
fn test_parse_prune_dry_run_single_quoted_path() {
    let out = "Removing worktree: '/home/user/my project'\n";
    let result = parse_prune_dry_run(out);
    assert_eq!(result, vec!["/home/user/my project".to_owned()]);
}

#[test]
fn test_parse_prune_dry_run_double_quoted_path() {
    let out = "Removing worktree: \"/home/user/my project\"\n";
    let result = parse_prune_dry_run(out);
    assert_eq!(result, vec!["/home/user/my project".to_owned()]);
}

#[test]
fn test_parse_prune_dry_run_mixed_quoted_and_plain() {
    let out = "Removing worktree: '/a b c'\n\
Removing worktree: /plain/path\n";
    let result = parse_prune_dry_run(out);
    assert_eq!(result, vec!["/a b c".to_owned(), "/plain/path".to_owned()]);
}

#[test]
fn test_parse_prune_dry_run_modern_relative_format() {
    let out =
        "Removing worktrees/test-rm-repo-stale2: gitdir file points to non-existent location\n";
    let result = parse_prune_dry_run(out);
    assert_eq!(result, vec!["worktrees/test-rm-repo-stale2".to_owned()]);
}

#[test]
fn test_parse_prune_dry_run_modern_relative_multiple() {
    let out = "Removing worktrees/a: first reason\n\
Removing worktrees/b: second reason\n";
    let result = parse_prune_dry_run(out);
    assert_eq!(
        result,
        vec!["worktrees/a".to_owned(), "worktrees/b".to_owned()]
    );
}

#[test]
fn test_parse_prune_dry_run_mixed_formats() {
    let out = "Removing worktree: /abs/path\n\
Removing worktrees/rel: missing gitdir\n";
    let result = parse_prune_dry_run(out);
    assert_eq!(
        result,
        vec!["/abs/path".to_owned(), "worktrees/rel".to_owned()]
    );
}

#[test]
fn parse_prune_dry_run_skips_empty_names() {
    let out = "Removing worktrees/: reason\nRemoving worktree: ''\n  Removing worktree: /x  \n";
    assert_eq!(parse_prune_dry_run(out), vec!["/x".to_owned()]);
}

#[test]
fn test_resolve_stale_absolute_path() {
    let path = resolve_stale_path("/abs/stale-dir", "/repo", None, false).unwrap();
    assert_eq!(PathBuf::from(path), PathBuf::from("/abs/stale-dir"));
}

#[test]
fn test_resolve_stale_relative_path_reads_gitdir() {
    let repo = "/tmp/resolve-test-repo";
    let admin = stale_admin_dir("worktrees/feature-x", repo);
    assert_eq!(admin, "/tmp/resolve-test-repo/.git/worktrees/feature-x");
    let path = resolve_stale_path(
        "worktrees/feature-x",
        repo,
        Some("/tmp/resolve-test-repo-feature-x/.git"),
        true,
    )
    .unwrap();
    assert_eq!(PathBuf::from(path), PathBuf::from("/tmp/resolve-test-repo-feature-x"));
}

#[test]
fn test_resolve_stale_relative_missing_gitdir_falls_back() {
    let result = resolve_stale_path("worktrees/missing", "/no/such/repo", None, false).unwrap();
    assert_eq!(PathBuf::from(result), PathBuf::from("/no/such/repo/worktrees/missing"));
}

#[test]
fn resolve_stale_falls_back_to_existing_admin_dir() {
    let result = resolve_stale_path("worktrees/w", "/repo", None, true).unwrap();
    assert_eq!(result, "/repo/.git/worktrees/w");
    match resolve_stale_path("worktrees/w", "/repo", Some("  \n"), true) {
        Err(AppError::GitError { message }) => {
            assert_eq!(message, "cannot determine worktree root from ``")
        }
        other => panic!("expected GitError, got {other:?}"),
    }
}

#[test]
fn head_message_is_one_trimmed_line() {
    assert_eq!(head_message("  fix:\tthe\r\nbug \n"), "fix: the  bug");
    match head_lookup(false, "abc") {
        HeadLookup::Fixed(m) => assert_eq!(m, "(stale)"),
        HeadLookup::Log(_) => panic!("expected a fixed message"),
    }
    match head_lookup(true, "0000") {
        HeadLookup::Fixed(m) => assert_eq!(m, "(no commits yet)"),
        HeadLookup::Log(_) => panic!("expected a fixed message"),
    }
    match head_lookup(true, "abc") {
        HeadLookup::Log(a) => assert_eq!(a, vec!["log", "-1", "--format=%s", "abc"]),
        HeadLookup::Fixed(_) => panic!("expected a git query"),
    }
}

#[test]
fn worktree_status_and_details() {
    let s = get_worktree_status(false, " M x", 3, 4);
    assert_eq!(s, WorktreeStatus { is_dirty: false, is_stale: true, ahead: 0, behind: 0 });
    let s = get_worktree_status(true, " M x", 3, 4);
    assert_eq!(s, WorktreeStatus { is_dirty: true, is_stale: false, ahead: 3, behind: 4 });

    let mut wt = info_with_subject("/r/feat", Some("feat"), "abc", Ok("msg".to_owned())).unwrap();
    assert_eq!(wt.name, "feat");
    assert_eq!(wt.head_msg, "msg");
    apply_details(&mut wt, None, None);
    assert_eq!(wt.head_msg, "(unreadable)");
    assert!(wt.status.is_stale);
    let mut wt = info_with_subject("/r/feat", None, "abc", Ok(String::new())).unwrap();
    assert_eq!(wt.name, "feat");
    apply_details(&mut wt, Some("subject".to_owned()), Some(s));
    assert_eq!(wt.head_msg, "subject");
    assert_eq!(wt.status.ahead, 3);
    apply_details(&mut wt, None, Some(WorktreeStatus::clean()));
    assert_eq!(wt.head_msg, "(unreadable)");
    assert!(wt.status.is_clean());
}

#[test]
fn older_prune_line_keeps_the_path_before_a_reason() {
    assert_eq!(parse_prune_dry_run("Removing worktree: x: gitdir file points to non-existent location"), vec!["x"]);
    assert_eq!(parse_prune_dry_run("Removing worktree: x: …"), vec!["x"]);
}

#[test]
fn worktree_info_of_a_missing_directory_is_stale() {
    match get_worktree_info("/r/gone", Some("gone"), false) {
        InfoStep::Done(w) => {
            assert_eq!(w.path, "/r/gone");
            assert_eq!(w.name, "gone");
            assert_eq!(w.branch.as_deref(), Some("gone"));
            assert_eq!(w.head_hash, "");
            assert_eq!(w.head_msg, "(stale)");
            assert!(w.status.is_clean());
        }
        other => panic!("expected a finished record, got {other:?}"),
    }
}

#[test]
fn worktree_info_reads_head_then_subject() {
    match get_worktree_info("/r/feat", Some("feat"), true) {
        InfoStep::ReadHead(args) => assert_eq!(args, vec!["rev-parse", "--verify", "--quiet", "HEAD"]),
        other => panic!("expected a HEAD read, got {other:?}"),
    }
    match info_with_head("/r/feat", Some("feat"), Ok("4d9f1a2".to_owned())) {
        InfoStep::ReadSubject { hash, args } => {
            assert_eq!(hash, "4d9f1a2");
            assert_eq!(args, vec!["log", "-1", "--format=%s", "4d9f1a2"]);
        }
        other => panic!("expected a subject read, got {other:?}"),
    }
    match info_with_head("/r/new", None, Err(AppError::GitError { message: String::new() })) {
        InfoStep::Done(w) => {
            assert_eq!(w.head_hash, "");
            assert_eq!(w.head_msg, "(no commits yet)");
            assert_eq!(w.name, "new");
        }
        other => panic!("expected a finished record, got {other:?}"),
    }
    let w = info_with_subject("/r/feat", Some("feat"), "4d9f1a2", Ok("Add\tOAuth\n".to_owned())).unwrap();
    assert_eq!(w.head_msg, "Add OAuth");
    assert!(matches!(
        info_with_subject("/r/feat", None, "4d9f1a2", Err(AppError::NotAGitRepository)),
        Err(AppError::NotAGitRepository)
    ));
}

#[test]
fn stale_entries_resolve_in_order_or_stop_at_the_first_error() {
    let entries = vec!["/abs/gone".to_owned(), "worktrees/feat".to_owned(), "worktrees/old".to_owned()];
    let gitdirs = vec![None, Some("/w/feat/.git\n".to_owned()), None];
    let admins = vec![false, true, true];
    let paths = resolve_stale_paths(&entries, "/w/repo", &gitdirs, &admins).unwrap();
    assert_eq!(paths, vec!["/abs/gone", "/w/feat", "/w/repo/.git/worktrees/old"]);

    let gitdirs = vec![None, Some("  ".to_owned()), Some("/never/read/.git".to_owned())];
    match resolve_stale_paths(&entries, "/w/repo", &gitdirs, &admins) {
        Err(AppError::GitError { message }) => assert_eq!(message, "cannot determine worktree root from ``"),
        other => panic!("expected the first error, got {other:?}"),
    }
}
