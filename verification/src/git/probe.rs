//! How far a worktree's branch is ahead of and behind its upstream, found by
//! a short dialogue with git: each answer decides the next question.
use vstd::prelude::*;
use crate::error::AppError;
use crate::git::command::{is_failure_error, map_git_failure, push_str, CommandStatus};
use crate::git::parse::{count_or_zero, rev_list_counts};
use crate::text::{chars_of, parse_u32_chars, string_of, strings, trim, trim_chars};

verus! {

/// The number of default branches tried when no upstream is configured.
pub const BASE_COUNT: usize = 5;

/// The default branches tried, in order, when no upstream is configured.
pub open spec fn base_ref(i: int) -> Seq<char> {
    if i == 0 {
        "refs/remotes/origin/HEAD"@
    } else if i == 1 {
        "refs/heads/main"@
    } else if i == 2 {
        "refs/heads/master"@
    } else if i == 3 {
        "refs/remotes/origin/main"@
    } else {
        "refs/remotes/origin/master"@
    }
}

fn base_ref_str(i: usize) -> (r: &'static str)
    requires
        i < BASE_COUNT,
    ensures
        r@ == base_ref(i as int),
{
    if i == 0 {
        "refs/remotes/origin/HEAD"
    } else if i == 1 {
        "refs/heads/main"
    } else if i == 2 {
        "refs/heads/master"
    } else if i == 3 {
        "refs/remotes/origin/main"
    } else {
        "refs/remotes/origin/master"
    }
}

/// The question that an answer responds to.
#[derive(Clone, Copy, Debug, PartialEq, Eq, Structural)]
pub enum ProbeStep {
    /// Is HEAD on a branch?
    SymbolicRef,
    /// Does the branch have an upstream?
    Upstream,
    /// How far apart are HEAD and its upstream?
    LeftRight,
    /// Does the i-th default branch exist?
    BaseExists(usize),
    /// How many commits has HEAD beyond the i-th default branch?
    BaseCount(usize),
}

impl ProbeStep {
    /// The question names one of the default branches when it names one.
    pub open spec fn wf(self) -> bool {
        match self {
            ProbeStep::BaseExists(i) => i < BASE_COUNT,
            ProbeStep::BaseCount(i) => i < BASE_COUNT,
            _ => true,
        }
    }

    /// An upper bound on the questions left after this one.
    pub open spec fn remaining(self) -> nat {
        match self {
            ProbeStep::SymbolicRef => 12,
            ProbeStep::Upstream => 11,
            ProbeStep::LeftRight => 10,
            ProbeStep::BaseExists(i) => (9 - 2 * i) as nat,
            ProbeStep::BaseCount(i) => (8 - 2 * i) as nat,
        }
    }
}

/// The git arguments of each question.
pub open spec fn step_args(step: ProbeStep) -> Seq<Seq<char>> {
    match step {
        ProbeStep::SymbolicRef => seq!["symbolic-ref"@, "--quiet"@, "--short"@, "HEAD"@],
        ProbeStep::Upstream => seq!["rev-parse"@, "--verify"@, "--quiet"@, "@{u}"@],
        ProbeStep::LeftRight => seq!["rev-list"@, "--left-right"@, "--count"@, "HEAD...@{u}"@],
        ProbeStep::BaseExists(i) => seq!["rev-parse"@, "--verify"@, "--quiet"@, base_ref(i as int)],
        ProbeStep::BaseCount(i) => seq!["rev-list"@, "--count"@, "HEAD"@, "^"@ + base_ref(i as int)],
    }
}

/// What to do next: ask git, or report the (ahead, behind) counts, or fail.
#[derive(Debug)]
pub enum ProbeAction {
    Run(ProbeStep, Vec<String>),
    Done(u32, u32),
    Fail(AppError),
}

/// The action with the question and its arguments agreeing.
pub open spec fn asks(a: ProbeAction, step: ProbeStep) -> bool {
    a matches ProbeAction::Run(s, args) && s == step && strings(args@) == step_args(step)
}

/// The question after the `i`-th default branch gave nothing: the next
/// default branch, or (0, 0) when none is left.
pub open spec fn after_base(a: ProbeAction, i: int) -> bool {
    if i + 1 < BASE_COUNT {
        asks(a, ProbeStep::BaseExists((i + 1) as usize))
    } else {
        a == ProbeAction::Done(0, 0)
    }
}

/// A finished git process that succeeded.
pub open spec fn succeeded(outcome: Result<CommandStatus, AppError>) -> bool {
    outcome matches Ok(st) && st.success
}

/// The stdout of a finished process.
pub open spec fn stdout_of(outcome: Result<CommandStatus, AppError>) -> Seq<char> {
    match outcome {
        Ok(st) => st.stdout@,
        Err(_) => seq![],
    }
}

fn ask(step: ProbeStep) -> (r: ProbeAction)
    requires
        step.wf(),
    ensures
        asks(r, step),
{
    let mut a: Vec<String> = Vec::new();
    match step {
        ProbeStep::SymbolicRef => {
            push_str(&mut a, "symbolic-ref");
            push_str(&mut a, "--quiet");
            push_str(&mut a, "--short");
            push_str(&mut a, "HEAD");
        },
        ProbeStep::Upstream => {
            push_str(&mut a, "rev-parse");
            push_str(&mut a, "--verify");
            push_str(&mut a, "--quiet");
            push_str(&mut a, "@{u}");
        },
        ProbeStep::LeftRight => {
            push_str(&mut a, "rev-list");
            push_str(&mut a, "--left-right");
            push_str(&mut a, "--count");
            push_str(&mut a, "HEAD...@{u}");
        },
        ProbeStep::BaseExists(i) => {
            push_str(&mut a, "rev-parse");
            push_str(&mut a, "--verify");
            push_str(&mut a, "--quiet");
            push_str(&mut a, base_ref_str(i));
        },
        ProbeStep::BaseCount(i) => {
            push_str(&mut a, "rev-list");
            push_str(&mut a, "--count");
            push_str(&mut a, "HEAD");
            let mut neg = chars_of("^");
            crate::text::append_chars(&mut neg, &chars_of(base_ref_str(i)));
            push_str(&mut a, string_of(&neg).as_str());
        },
    }
    assert(strings(a@) =~= step_args(step));
    ProbeAction::Run(step, a)
}

fn next_base(i: usize) -> (r: ProbeAction)
    requires
        i < BASE_COUNT,
    ensures
        after_base(r, i as int),
{
    if i + 1 < BASE_COUNT {
        ask(ProbeStep::BaseExists(i + 1))
    } else {
        ProbeAction::Done(0, 0)
    }
}

/// The first question: is HEAD on a branch?
pub fn probe_start() -> (r: ProbeAction)
    ensures
        asks(r, ProbeStep::SymbolicRef),
{
    ask(ProbeStep::SymbolicRef)
}

/// The next action after git answered `step` with `outcome` (`Err` when git
/// could not be run); every further question is nearer the end, so a probe
/// asks at most thirteen questions:
/// - HEAD not on a branch: (0, 0);
/// - on a branch: ask for its upstream;
/// - with an upstream: count both ways against it, and fail when that fails;
/// - without one: try each default branch in turn, counting the commits of
///   HEAD beyond the first that exists and can be counted; (0, 0) when none.
pub fn probe_next(step: ProbeStep, outcome: Result<CommandStatus, AppError>) -> (r: ProbeAction)
    requires
        step.wf(),
    ensures
        r matches ProbeAction::Run(s, _) ==> s.wf() && s.remaining() < step.remaining(),
        step == ProbeStep::SymbolicRef ==> if succeeded(outcome) {
            asks(r, ProbeStep::Upstream)
        } else {
            r == ProbeAction::Done(0, 0)
        },
        step == ProbeStep::Upstream ==> if succeeded(outcome) {
            asks(r, ProbeStep::LeftRight)
        } else {
            asks(r, ProbeStep::BaseExists(0))
        },
        step == ProbeStep::LeftRight ==> match outcome {
            Ok(st) => if st.success {
                r == ProbeAction::Done(rev_list_counts(st.stdout@).0, rev_list_counts(st.stdout@).1)
            } else {
                r matches ProbeAction::Fail(e) && is_failure_error(
                    step_args(step),
                    st.stderr@,
                    e,
                )
            },
            Err(e) => r == ProbeAction::Fail(e),
        },
        step matches ProbeStep::BaseExists(i) ==> if succeeded(outcome) {
            asks(r, ProbeStep::BaseCount(i))
        } else {
            after_base(r, i as int)
        },
        step matches ProbeStep::BaseCount(i) ==> if succeeded(outcome) {
            r == ProbeAction::Done(count_or_zero(trim(stdout_of(outcome))), 0)
        } else {
            after_base(r, i as int)
        },
{
    let ok = match &outcome {
        Ok(st) => st.success,
        Err(_) => false,
    };
    match step {
        ProbeStep::SymbolicRef => {
            if ok {
                ask(ProbeStep::Upstream)
            } else {
                ProbeAction::Done(0, 0)
            }
        },
        ProbeStep::Upstream => {
            if ok {
                ask(ProbeStep::LeftRight)
            } else {
                ask(ProbeStep::BaseExists(0))
            }
        },
        ProbeStep::LeftRight => {
            match outcome {
                Ok(st) => {
                    if st.success {
                        let (a, b) = crate::git::parse::parse_rev_list_count(st.stdout.as_str());
                        ProbeAction::Done(a, b)
                    } else {
                        let args = match ask(ProbeStep::LeftRight) {
                            ProbeAction::Run(_, args) => args,
                            _ => Vec::new(),
                        };
                        ProbeAction::Fail(map_git_failure(&args, &st))
                    }
                },
                Err(e) => ProbeAction::Fail(e),
            }
        },
        ProbeStep::BaseExists(i) => {
            if ok {
                ask(ProbeStep::BaseCount(i))
            } else {
                next_base(i)
            }
        },
        ProbeStep::BaseCount(i) => {
            if ok {
                let out = match &outcome {
                    Ok(st) => chars_of(st.stdout.as_str()),
                    Err(_) => Vec::new(),
                };
                let n = match parse_u32_chars(&trim_chars(&out)) {
                    Some(n) => n,
                    None => 0,
                };
                ProbeAction::Done(n, 0)
            } else {
                next_base(i)
            }
        },
    }
}

} // verus!
