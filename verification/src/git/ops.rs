//! The git arguments of the commands that change worktrees.
use vstd::prelude::*;
use crate::git::command::push_str;
use crate::text::strings;

verus! {

/// The arguments of `git worktree add` for a branch:
/// - an existing local branch, or a branch only on a remote with neither a
///   base nor an upstream given, is checked out as it is (git sets up the
///   remote tracking itself);
/// - otherwise the branch is created with `-b`, tracking `track` when given,
///   else starting from `base` when given, else from HEAD.
pub open spec fn add_args(
    path: Seq<char>,
    branch: Seq<char>,
    base: Option<Seq<char>>,
    track: Option<Seq<char>>,
    branch_exists: bool,
    remote_branch_exists: bool,
) -> Seq<Seq<char>> {
    let head = seq!["worktree"@, "add"@];
    if branch_exists || (remote_branch_exists && track is None && base is None) {
        head + seq![path, branch]
    } else {
        match track {
            Some(u) => head + seq!["--track"@, "-b"@, branch, path, u],
            None => match base {
                Some(s) => head + seq!["-b"@, branch, path, s],
                None => head + seq!["-b"@, branch, path],
            },
        }
    }
}

/// The view of an optional string slice.
pub open spec fn opt_str(o: Option<&str>) -> Option<Seq<char>> {
    match o {
        Some(s) => Some(s@),
        None => None,
    }
}

/// The git arguments that create the worktree at `path` for `branch_name`.
pub fn add_worktree(
    path: &str,
    branch_name: &str,
    base: Option<&str>,
    track: Option<&str>,
    branch_exists: bool,
    remote_branch_exists: bool,
) -> (r: Vec<String>)
    ensures
        strings(r@) == add_args(
            path@,
            branch_name@,
            opt_str(base),
            opt_str(track),
            branch_exists,
            remote_branch_exists,
        ),
{
    let mut a: Vec<String> = Vec::new();
    push_str(&mut a, "worktree");
    push_str(&mut a, "add");
    if branch_exists || (remote_branch_exists && track.is_none() && base.is_none()) {
        push_str(&mut a, path);
        push_str(&mut a, branch_name);
    } else {
        match track {
            Some(u) => {
                push_str(&mut a, "--track");
                push_str(&mut a, "-b");
                push_str(&mut a, branch_name);
                push_str(&mut a, path);
                push_str(&mut a, u);
            },
            None => match base {
                Some(s) => {
                    push_str(&mut a, "-b");
                    push_str(&mut a, branch_name);
                    push_str(&mut a, path);
                    push_str(&mut a, s);
                },
                None => {
                    push_str(&mut a, "-b");
                    push_str(&mut a, branch_name);
                    push_str(&mut a, path);
                },
            },
        }
    }
    assert(strings(a@) =~= add_args(
        path@,
        branch_name@,
        opt_str(base),
        opt_str(track),
        branch_exists,
        remote_branch_exists,
    ));
    a
}

/// The arguments of `git worktree remove`, with `--force` when forced.
pub open spec fn remove_args(path: Seq<char>, force: bool) -> Seq<Seq<char>> {
    if force {
        seq!["worktree"@, "remove"@, "--force"@, path]
    } else {
        seq!["worktree"@, "remove"@, path]
    }
}

/// The git arguments that remove the worktree at `path`.
pub fn remove_worktree(path: &str, force: bool) -> (r: Vec<String>)
    ensures
        strings(r@) == remove_args(path@, force),
{
    let mut a: Vec<String> = Vec::new();
    push_str(&mut a, "worktree");
    push_str(&mut a, "remove");
    if force {
        push_str(&mut a, "--force");
    }
    push_str(&mut a, path);
    assert(strings(a@) =~= remove_args(path@, force));
    a
}

/// The git arguments that drop stale worktree references.
pub fn prune_worktrees() -> (r: Vec<String>)
    ensures
        strings(r@) == seq!["worktree"@, "prune"@],
{
    let mut a: Vec<String> = Vec::new();
    push_str(&mut a, "worktree");
    push_str(&mut a, "prune");
    assert(strings(a@) =~= seq!["worktree"@, "prune"@]);
    a
}

/// The git arguments that list stale worktree references without removing them.
pub fn prune_dry_run_args() -> (r: Vec<String>)
    ensures
        strings(r@) == seq!["worktree"@, "prune"@, "--dry-run"@, "--verbose"@],
{
    let mut a: Vec<String> = Vec::new();
    push_str(&mut a, "worktree");
    push_str(&mut a, "prune");
    push_str(&mut a, "--dry-run");
    push_str(&mut a, "--verbose");
    assert(strings(a@) =~= seq!["worktree"@, "prune"@, "--dry-run"@, "--verbose"@]);
    a
}

} // verus!
