//! The safety rules of `wt remove`, as a dialogue: each answer about the
//! worktree decides the next question, a refusal, or the removal.
use vstd::prelude::*;
use crate::error::AppError;
use crate::git::ops::{remove_args, remove_worktree};
use crate::models::{InfoView, WorktreeInfo};
use crate::text::{chars_of, string_of, strings};

verus! {

/// A question about the worktree being removed.
#[derive(Clone, Copy, Debug, PartialEq, Eq, Structural)]
pub enum RemoveCheck {
    /// Does its directory exist?
    Exists,
    /// Is it the main worktree of the repository?
    IsMain,
    /// Is the current directory inside it?
    IsActive,
    /// Is its detached HEAD commit reachable from some branch?
    Reachable,
}

/// Why a removal is refused.
#[derive(Clone, Copy, Debug, PartialEq, Eq, Structural)]
pub enum Refusal {
    Stale,
    Main,
    Active,
    Dirty,
    Unpushed,
    Detached,
}

/// What to do next in a removal.
#[derive(Debug)]
pub enum RemoveAction {
    /// Answer this question about the worktree.
    Ask(RemoveCheck),
    /// Run git with these arguments to remove it.
    Remove(Vec<String>),
    /// Refuse with this error.
    Refuse(AppError),
}

/// The decision of a removal step, without the values it carries.
pub enum RemoveDecision {
    Ask(RemoveCheck),
    Remove,
    Refuse(Refusal),
}

/// The step after the last question is answered `false` ("not active"):
/// with `--force` remove; else refuse a dirty worktree, then one with
/// unpushed commits, then ask about reachability for a detached HEAD.
pub open spec fn after_checks(w: InfoView, force: bool) -> RemoveDecision {
    if force {
        RemoveDecision::Remove
    } else if w.status.is_dirty {
        RemoveDecision::Refuse(Refusal::Dirty)
    } else if w.status.ahead > 0 {
        RemoveDecision::Refuse(Refusal::Unpushed)
    } else if w.branch is None {
        RemoveDecision::Ask(RemoveCheck::Reachable)
    } else {
        RemoveDecision::Remove
    }
}

/// The decision after `check` was answered with `answer`: a missing
/// directory, the main worktree and the active worktree are refused even with
/// `--force`.
pub open spec fn remove_step(w: InfoView, force: bool, check: RemoveCheck, answer: bool) -> RemoveDecision {
    match check {
        RemoveCheck::Exists => if answer {
            RemoveDecision::Ask(RemoveCheck::IsMain)
        } else {
            RemoveDecision::Refuse(Refusal::Stale)
        },
        RemoveCheck::IsMain => if answer {
            RemoveDecision::Refuse(Refusal::Main)
        } else {
            RemoveDecision::Ask(RemoveCheck::IsActive)
        },
        RemoveCheck::IsActive => if answer {
            RemoveDecision::Refuse(Refusal::Active)
        } else {
            after_checks(w, force)
        },
        RemoveCheck::Reachable => if answer {
            RemoveDecision::Remove
        } else {
            RemoveDecision::Refuse(Refusal::Detached)
        },
    }
}

/// The error of a refusal, naming the worktree's path.
pub open spec fn refusal_error(r: Refusal, w: InfoView, e: AppError) -> bool {
    match r {
        Refusal::Stale => e matches AppError::StaleWorktree { path } && path@ == w.path,
        Refusal::Main => e matches AppError::CannotRemoveMainWorktree { path } && path@ == w.path,
        Refusal::Active => e matches AppError::CannotRemoveActiveWorktree { path } && path@ == w.path,
        Refusal::Dirty => e matches AppError::WorktreeIsDirty { path } && path@ == w.path,
        Refusal::Unpushed => e matches AppError::UnpushedCommits { path, ahead } && path@ == w.path
            && ahead == w.status.ahead,
        Refusal::Detached => e matches AppError::DetachedHeadWithUnreachableCommits { path } && path@
            == w.path,
    }
}

/// The action carries out the decision for worktree `w`.
pub open spec fn carries_out(a: RemoveAction, d: RemoveDecision, w: InfoView, force: bool) -> bool {
    match d {
        RemoveDecision::Ask(c) => a == RemoveAction::Ask(c),
        RemoveDecision::Remove => a matches RemoveAction::Remove(args) && strings(args@)
            == remove_args(w.path, force),
        RemoveDecision::Refuse(r) => a matches RemoveAction::Refuse(e) && refusal_error(r, w, e),
    }
}

/// The first question of a removal: does the worktree's directory exist?
pub fn remove_start() -> (r: RemoveAction)
    ensures
        r == RemoveAction::Ask(RemoveCheck::Exists),
{
    RemoveAction::Ask(RemoveCheck::Exists)
}

fn refuse(r: Refusal, info: &WorktreeInfo) -> (a: RemoveAction)
    ensures
        a matches RemoveAction::Refuse(e) && refusal_error(r, info@, e),
{
    let path = string_of(&chars_of(info.path.as_str()));
    let e = match r {
        Refusal::Stale => AppError::StaleWorktree { path },
        Refusal::Main => AppError::CannotRemoveMainWorktree { path },
        Refusal::Active => AppError::CannotRemoveActiveWorktree { path },
        Refusal::Dirty => AppError::WorktreeIsDirty { path },
        Refusal::Unpushed => AppError::UnpushedCommits { path, ahead: info.status.ahead },
        Refusal::Detached => AppError::DetachedHeadWithUnreachableCommits { path },
    };
    RemoveAction::Refuse(e)
}

/// The next action of a removal of `info` after `check` was answered with
/// `answer`.
pub fn remove_next(info: &WorktreeInfo, force: bool, check: RemoveCheck, answer: bool) -> (r: RemoveAction)
    ensures
        carries_out(r, remove_step(info@, force, check, answer), info@, force),
{
    match check {
        RemoveCheck::Exists => if answer {
            RemoveAction::Ask(RemoveCheck::IsMain)
        } else {
            refuse(Refusal::Stale, info)
        },
        RemoveCheck::IsMain => if answer {
            refuse(Refusal::Main, info)
        } else {
            RemoveAction::Ask(RemoveCheck::IsActive)
        },
        RemoveCheck::IsActive => if answer {
            refuse(Refusal::Active, info)
        } else if force {
            RemoveAction::Remove(remove_worktree(info.path.as_str(), force))
        } else if info.status.is_dirty {
            refuse(Refusal::Dirty, info)
        } else if info.status.ahead > 0 {
            refuse(Refusal::Unpushed, info)
        } else if info.branch.is_none() {
            RemoveAction::Ask(RemoveCheck::Reachable)
        } else {
            RemoveAction::Remove(remove_worktree(info.path.as_str(), force))
        },
        RemoveCheck::Reachable => if answer {
            RemoveAction::Remove(remove_worktree(info.path.as_str(), force))
        } else {
            refuse(Refusal::Detached, info)
        },
    }
}

/// The decision that a whole removal reaches when the directory's existence,
/// being the main worktree, being active and (for a detached HEAD)
/// reachability are answered as given, starting from the first question.
pub open spec fn removal_outcome(
    w: InfoView,
    force: bool,
    exists: bool,
    is_main: bool,
    is_active: bool,
    reachable: bool,
) -> RemoveDecision {
    match remove_step(w, force, RemoveCheck::Exists, exists) {
        RemoveDecision::Ask(_) => match remove_step(w, force, RemoveCheck::IsMain, is_main) {
            RemoveDecision::Ask(_) => match remove_step(w, force, RemoveCheck::IsActive, is_active) {
                RemoveDecision::Ask(_) => remove_step(w, force, RemoveCheck::Reachable, reachable),
                d => d,
            },
            d => d,
        },
        d => d,
    }
}

/// A worktree is removed only when its directory exists and it is neither
/// the main nor the active worktree; and, without `--force`, only when it has
/// no uncommitted changes, no unpushed commits, and a detached HEAD commit
/// that some branch still reaches.
pub proof fn lemma_removal_is_safe(
    w: InfoView,
    force: bool,
    exists: bool,
    is_main: bool,
    is_active: bool,
    reachable: bool,
)
    requires
        removal_outcome(w, force, exists, is_main, is_active, reachable) is Remove,
    ensures
        exists,
        !is_main,
        !is_active,
        !force ==> !w.status.is_dirty && w.status.ahead == 0 && (w.branch is None ==> reachable),
{
}

/// `--force` overrides the checks for uncommitted changes, unpushed commits and
/// unreachable commits, but never the protection of the main and the active
/// worktree or of a missing directory.
pub proof fn lemma_force_overrides_only_data_checks(
    w: InfoView,
    exists: bool,
    is_main: bool,
    is_active: bool,
    reachable: bool,
)
    ensures
        (exists && !is_main && !is_active) <==> removal_outcome(
            w,
            true,
            exists,
            is_main,
            is_active,
            reachable,
        ) is Remove,
{
}

} // verus!
