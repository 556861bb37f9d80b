//! The plan of `wt prune`: a dry run unless confirmed.
use vstd::prelude::*;
use crate::error::AppError;
use crate::git::command::{is_failure_error, map_git_failure, CommandStatus};
use crate::git::ops::prune_worktrees;
use crate::text::strings;

verus! {

/// How the stale entries are reported.
#[derive(Clone, Copy, Debug, PartialEq, Eq, Structural)]
pub enum PruneReport {
    /// As a JSON array.
    Json,
    /// As the list of what a prune would remove.
    Preview,
    /// As the list of what was removed.
    Pruned,
}

/// What `wt prune` does: list the stale entries, prune them only when
/// confirmed, and report them.
#[derive(Clone, Copy, Debug, PartialEq, Eq, Structural)]
pub struct PrunePlan {
    pub execute: bool,
    pub report: PruneReport,
}

/// The plan for `wt prune` with `--yes` given or not and `--json` given or not.
pub fn run(yes: bool, json: bool) -> (r: PrunePlan)
    ensures
        r.execute == yes,
        r.report == (if json {
            PruneReport::Json
        } else if yes {
            PruneReport::Pruned
        } else {
            PruneReport::Preview
        }),
{
    let report = if json {
        PruneReport::Json
    } else if yes {
        PruneReport::Pruned
    } else {
        PruneReport::Preview
    };
    PrunePlan { execute: yes, report }
}

/// What `wt prune` does next.
#[derive(Debug)]
pub enum PruneAction {
    /// Read the stale worktree entries (the dry run of `git worktree prune`).
    ListStale,
    /// Run git with these arguments to drop the stale references, which
    /// were read as `stale`.
    RunGit { args: Vec<String>, stale: Vec<String> },
    /// Report these stale entries in this form.
    Report(PruneReport, Vec<String>),
    /// Stop with this error.
    Fail(AppError),
}

/// The arguments that drop stale references.
pub open spec fn prune_args() -> Seq<Seq<char>> {
    seq!["worktree"@, "prune"@]
}

/// The first step of `wt prune`: read the stale entries.
pub fn prune_start() -> (r: PruneAction)
    ensures
        r is ListStale,
{
    PruneAction::ListStale
}

/// The step after the stale entries were read: a failure stops `wt prune`
/// before anything is pruned; with `--yes` the references are pruned next;
/// without it the entries are reported as what a prune would remove.
pub fn prune_after_list(yes: bool, json: bool, stale: Result<Vec<String>, AppError>) -> (r:
    PruneAction)
    ensures
        match stale {
            Err(e) => r == PruneAction::Fail(e),
            Ok(s) => if yes {
                r matches PruneAction::RunGit { args, stale: l } && strings(args@) == prune_args()
                    && strings(l@) == strings(s@)
            } else {
                r matches PruneAction::Report(k, l) && k == (if json {
                    PruneReport::Json
                } else {
                    PruneReport::Preview
                }) && strings(l@) == strings(s@)
            },
        },
{
    match stale {
        Err(e) => PruneAction::Fail(e),
        Ok(s) => {
            if yes {
                PruneAction::RunGit { args: prune_worktrees(), stale: s }
            } else {
                PruneAction::Report(run(yes, json).report, s)
            }
        },
    }
}

/// The step after `git worktree prune` ran on the entries `stale` read
/// before: its failure stops `wt prune` with the error it stands for;
/// otherwise those entries are reported as pruned.
pub fn prune_after_run(json: bool, stale: Vec<String>, outcome: Result<CommandStatus, AppError>) -> (r:
    PruneAction)
    ensures
        match outcome {
            Err(e) => r == PruneAction::Fail(e),
            Ok(st) => if st.success {
                r matches PruneAction::Report(k, l) && k == (if json {
                    PruneReport::Json
                } else {
                    PruneReport::Pruned
                }) && strings(l@) == strings(stale@)
            } else {
                r matches PruneAction::Fail(e) && is_failure_error(prune_args(), st.stderr@, e)
            },
        },
{
    match outcome {
        Err(e) => PruneAction::Fail(e),
        Ok(st) => {
            if st.success {
                PruneAction::Report(run(true, json).report, stale)
            } else {
                PruneAction::Fail(map_git_failure(&prune_worktrees(), &st))
            }
        },
    }
}

} // verus!
