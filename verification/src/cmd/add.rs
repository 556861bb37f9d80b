//! The checks of `wt add` that decide whether a worktree may be created, and
//! the dialogue that runs them: each answer decides the next question, a
//! refusal, or the creation.
use vstd::prelude::*;
use crate::error::AppError;
use crate::git::command::{
    branch_check_args, check_remote_branch_exists, is_failure_error, map_git_failure,
    names_remote_branch, push_str, remote_branches_args, CommandStatus,
};
use crate::git::ops::{add_args, add_worktree};
use crate::git::parse::{infer_worktree_path, inferred_path, infos};
use crate::models::{opt_view, InfoView, WorktreeInfo};
use crate::paths::{parent, path_parent};
use crate::text::{chars_of, lines, string_of, strings, trim, trim_chars};

verus! {

/// `c` with ASCII capitals made small.
pub open spec fn ascii_lower(c: char) -> char {
    if 'A' <= c <= 'Z' {
        ((c as u32) + 32) as char
    } else {
        c
    }
}

/// `s` equals `t` ignoring ASCII case, as `str::eq_ignore_ascii_case` compares.
pub open spec fn eq_ignore_ascii_case(s: Seq<char>, t: Seq<char>) -> bool {
    s.len() == t.len() && forall|i: int| 0 <= i < s.len() ==> ascii_lower(#[trigger] s[i]) == ascii_lower(t[i])
}

fn lower_ascii(c: char) -> (r: char)
    ensures
        r == ascii_lower(c),
{
    if 'A' <= c && c <= 'Z' {
        let u: u8 = ((c as u32) + 32) as u8;
        u as char
    } else {
        c
    }
}

/// `git rev-parse --is-bare-repository` answered `true` (ignoring ASCII case
/// and surrounding whitespace).
pub fn is_bare_answer(stdout: &str) -> (r: bool)
    ensures
        r == eq_ignore_ascii_case(trim(stdout@), "true"@),
{
    let t = trim_chars(&chars_of(stdout));
    let word = chars_of("true");
    if t.len() != word.len() {
        return false;
    }
    let mut i: usize = 0;
    while i < t.len()
        invariant
            i <= t.len() == word.len(),
            t@ == trim(stdout@),
            word@ == "true"@,
            forall|j: int| 0 <= j < i ==> ascii_lower(#[trigger] t@[j]) == ascii_lower(word@[j]),
        decreases t.len() - i,
    {
        if lower_ascii(t[i]) != lower_ascii(word[i]) {
            return false;
        }
        i += 1;
    }
    true
}

/// A new worktree cannot be added to a bare repository or to one without
/// commits.
pub fn check_repository(bare: bool, has_commits: bool) -> (r: Result<(), AppError>)
    ensures
        bare ==> r matches Err(AppError::BareRepositoryNotSupported),
        !bare && !has_commits ==> r matches Err(AppError::EmptyRepository),
        !bare && has_commits ==> r is Ok,
{
    if bare {
        Err(AppError::BareRepositoryNotSupported)
    } else if !has_commits {
        Err(AppError::EmptyRepository)
    } else {
        Ok(())
    }
}

/// The target path must not exist yet.
pub fn check_target_free(target: &str, exists: bool) -> (r: Result<(), AppError>)
    ensures
        exists ==> (r matches Err(AppError::PathAlreadyExists { path }) && path@ == target@),
        !exists ==> r is Ok,
{
    if exists {
        Err(AppError::PathAlreadyExists { path: string_of(&chars_of(target)) })
    } else {
        Ok(())
    }
}

/// An existing local branch is checked out as it is: a base or an upstream
/// cannot be given for it.
pub fn check_existing_branch(
    name: &str,
    branch_exists: bool,
    base: Option<&str>,
    track: Option<&str>,
) -> (r: Result<(), AppError>)
    ensures
        (branch_exists && (base is Some || track is Some)) ==> (r matches Err(
            AppError::BranchAlreadyExistsCannotSpecifyBaseOrTrack { branch },
        ) && branch@ == name@),
        !(branch_exists && (base is Some || track is Some)) ==> r is Ok,
{
    if branch_exists && (base.is_some() || track.is_some()) {
        Err(AppError::BranchAlreadyExistsCannotSpecifyBaseOrTrack { branch: string_of(&chars_of(name)) })
    } else {
        Ok(())
    }
}

/// Worktree `i` is the first whose branch is `name`.
pub open spec fn first_on_branch(ws: Seq<InfoView>, name: Seq<char>, i: int) -> bool {
    0 <= i < ws.len() && ws[i].branch == Some(name) && forall|j: int|
        0 <= j < i ==> (#[trigger] ws[j]).branch != Some(name)
}

/// A branch already checked out in a worktree cannot be checked out again:
/// the first such worktree is named in the error.
pub fn check_not_checked_out(worktrees: &Vec<WorktreeInfo>, name: &str) -> (r: Result<(), AppError>)
    ensures
        (exists|i: int| first_on_branch(infos(worktrees@), name@, i)) ==> (r matches Err(
            AppError::BranchAlreadyCheckedOut { branch, path },
        ) && branch@ == name@ && exists|i: int|
            first_on_branch(infos(worktrees@), name@, i) && path@ == infos(worktrees@)[i].path),
        (forall|i: int| 0 <= i < worktrees@.len() ==> (#[trigger] infos(worktrees@)[i]).branch != Some(name@))
            ==> r is Ok,
        r is Err <==> exists|i: int| first_on_branch(infos(worktrees@), name@, i),
{
    let ghost ws = infos(worktrees@);
    let target = chars_of(name);
    let mut i: usize = 0;
    while i < worktrees.len()
        invariant
            i <= worktrees.len(),
            ws == infos(worktrees@),
            target@ == name@,
            forall|j: int| 0 <= j < i ==> (#[trigger] ws[j]).branch != Some(name@),
        decreases worktrees.len() - i,
    {
        let w = &worktrees[i];
        assert(ws[i as int] == w@);
        match &w.branch {
            Some(b) => {
                if crate::text::chars_eq(&chars_of(b.as_str()), &target) {
                    assert(first_on_branch(ws, name@, i as int));
                    return Err(
                        AppError::BranchAlreadyCheckedOut {
                            branch: string_of(&target),
                            path: string_of(&chars_of(w.path.as_str())),
                        },
                    );
                }
            },
            None => {},
        }
        i += 1;
    }
    assert(forall|k: int| !first_on_branch(ws, name@, k));
    Ok(())
}

/// The question that `wt add` waits on, in the order they are asked.
#[derive(Clone, Copy, Debug, PartialEq, Eq, Structural)]
pub enum AddStage {
    /// Where is the main worktree? (answered with text)
    MainRoot,
    /// Is the repository bare? (a git run)
    Bare,
    /// Does HEAD name a commit? (a git run)
    Commits,
    /// Where is the custom path, made absolute? (answered with text)
    Custom,
    /// Does the target path exist? (a flag)
    Target,
    /// Does the local branch exist? (a git run)
    LocalBranch,
    /// Which remote branches are there? (a git run)
    RemoteBranch,
    /// Which worktrees are there? (the worktree list)
    CheckedOut,
    /// Was the target's parent directory created? (done or failed)
    Parent,
    /// Did `git worktree add` succeed? (a git run)
    Create,
}

/// The position of a stage in the dialogue.
pub open spec fn stage_rank(s: AddStage) -> nat {
    match s {
        AddStage::MainRoot => 0,
        AddStage::Bare => 1,
        AddStage::Commits => 2,
        AddStage::Custom => 3,
        AddStage::Target => 4,
        AddStage::LocalBranch => 5,
        AddStage::RemoteBranch => 6,
        AddStage::CheckedOut => 7,
        AddStage::Parent => 8,
        AddStage::Create => 9,
    }
}

/// An answer to the question of a stage.
#[derive(Debug)]
pub enum AddEvent {
    Text(Result<String, AppError>),
    Status(Result<CommandStatus, AppError>),
    Flag(bool),
    Worktrees(Result<Vec<WorktreeInfo>, AppError>),
    Done(Result<(), AppError>),
}

/// What `wt add` needs next.
#[derive(Debug)]
pub enum AddAction {
    /// Find the root of the main worktree.
    FindMainRoot,
    /// Run git with these arguments.
    RunGit(Vec<String>),
    /// Make this custom path absolute against the current directory,
    /// canonicalized when it can be.
    MakeAbsolute(String),
    /// Tell whether this path exists.
    CheckExists(String),
    /// List the repository's worktrees.
    ListWorktrees,
    /// Create this directory and its missing parents.
    CreateDir(String),
    /// The worktree was created at this path.
    Finish(String),
    /// Stop with this error.
    Fail(AppError),
}

/// The request of `wt add` and what its dialogue has learned so far.
pub struct AddState {
    name: String,
    base: Option<String>,
    track: Option<String>,
    path: Option<String>,
    stage: AddStage,
    main_root: String,
    target: String,
    branch_exists: bool,
    remote_exists: bool,
}

/// The contents of an `AddState`.
pub struct AddView {
    pub name: Seq<char>,
    pub base: Option<Seq<char>>,
    pub track: Option<Seq<char>>,
    pub path: Option<Seq<char>>,
    pub stage: AddStage,
    pub main_root: Seq<char>,
    pub target: Seq<char>,
    pub branch_exists: bool,
    pub remote_exists: bool,
}

impl View for AddState {
    type V = AddView;

    closed spec fn view(&self) -> AddView {
        AddView {
            name: self.name@,
            base: opt_view(self.base),
            track: opt_view(self.track),
            path: opt_view(self.path),
            stage: self.stage,
            main_root: self.main_root@,
            target: self.target@,
            branch_exists: self.branch_exists,
            remote_exists: self.remote_exists,
        }
    }
}

/// The question of each stage can be asked.
pub open spec fn add_wf(s: AddView) -> bool {
    &&& s.stage == AddStage::Custom ==> s.path is Some
    &&& s.stage == AddStage::Parent ==> parent(s.target) is Some
}

impl AddState {
    #[verifier::type_invariant]
    closed spec fn inv(self) -> bool {
        add_wf(self@)
    }

    /// The stage whose question is pending.
    pub fn stage(&self) -> (r: AddStage)
        ensures
            r == self@.stage,
    {
        self.stage
    }
}

/// Some remote has a branch called `name`, by the `<remote>/<branch>` lines
/// of `output`.
pub open spec fn remote_has_branch(output: Seq<char>, name: Seq<char>) -> bool {
    exists|i: int|
        0 <= i < lines(output).len() && names_remote_branch(#[trigger] lines(output)[i], name)
}

/// The arguments of `git worktree add` for the state.
pub open spec fn create_args(s: AddView) -> Seq<Seq<char>> {
    add_args(s.target, s.name, s.base, s.track, s.branch_exists, s.remote_exists)
}

/// `a` asks the question of the stage of `s`.
pub open spec fn asks(s: AddView, a: AddAction) -> bool {
    match s.stage {
        AddStage::MainRoot => a is FindMainRoot,
        AddStage::Bare => a matches AddAction::RunGit(args) && strings(args@) == seq![
            "rev-parse"@,
            "--is-bare-repository"@,
        ],
        AddStage::Commits => a matches AddAction::RunGit(args) && strings(args@) == seq![
            "rev-parse"@,
            "--verify"@,
            "--quiet"@,
            "HEAD"@,
        ],
        AddStage::Custom => a matches AddAction::MakeAbsolute(p) && s.path == Some(p@),
        AddStage::Target => a matches AddAction::CheckExists(t) && t@ == s.target,
        AddStage::LocalBranch => a matches AddAction::RunGit(args) && strings(args@) == seq![
            "show-ref"@,
            "--verify"@,
            "--quiet"@,
            "refs/heads/"@ + s.name,
        ],
        AddStage::RemoteBranch => a matches AddAction::RunGit(args) && strings(args@) == seq![
            "for-each-ref"@,
            "--format=%(refname:strip=2)"@,
            "refs/remotes"@,
        ],
        AddStage::CheckedOut => a is ListWorktrees,
        AddStage::Parent => a matches AddAction::CreateDir(d) && parent(s.target) == Some(d@),
        AddStage::Create => a matches AddAction::RunGit(args) && strings(args@) == create_args(s),
    }
}

/// The dialogue continues in state `to`, asking its question.
pub open spec fn moves_to(n: AddView, a: AddAction, to: AddView) -> bool {
    n == to && asks(to, a)
}

/// After the branch checks: the target's parent directory is created first
/// when it has one, then the worktree.
pub open spec fn to_parent(s: AddView, n: AddView, a: AddAction) -> bool {
    match parent(s.target) {
        Some(_) => moves_to(n, a, AddView { stage: AddStage::Parent, ..s }),
        None => moves_to(n, a, AddView { stage: AddStage::Create, ..s }),
    }
}

/// Once the repository is fit: the custom path when one was given, else the
/// path inferred beside the main worktree.
pub open spec fn chooses_target(s: AddView, n: AddView, a: AddAction) -> bool {
    match s.path {
        Some(_) => moves_to(n, a, AddView { stage: AddStage::Custom, ..s }),
        None => match inferred_path(s.main_root, s.name) {
            Ok(p) => moves_to(n, a, AddView { stage: AddStage::Target, target: p, ..s }),
            Err(reason) => a matches AddAction::Fail(AppError::PathInferenceFailed { reason: m })
                && m@ == reason,
        },
    }
}

/// The answer is of the kind that the stage's question asks for.
pub open spec fn fits(stage: AddStage, ev: AddEvent) -> bool {
    match stage {
        AddStage::MainRoot | AddStage::Custom => ev is Text,
        AddStage::Target => ev is Flag,
        AddStage::CheckedOut => ev is Worktrees,
        AddStage::Parent => ev is Done,
        _ => ev is Status,
    }
}

/// The step of `wt add` from state `s` on answer `ev` to state `n` and action
/// `a`. An answer that does not fit the question leaves the state as it is
/// and asks again; a failed outside step fails with its error. Otherwise:
/// - a bare repository, one without commits, an existing target path, a base
///   or upstream given for an existing local branch, and a local branch
///   checked out in some worktree are refused, in this order;
/// - a failed branch listing or `git worktree add` fails with the error its
///   failure stands for;
/// - the worktree is created with `create_args` once every check passed.
pub open spec fn add_transition(s: AddView, ev: AddEvent, n: AddView, a: AddAction) -> bool {
    if !fits(s.stage, ev) {
        moves_to(n, a, s)
    } else {
        match ev {
            AddEvent::Text(Err(e)) => a == AddAction::Fail(e),
            AddEvent::Status(Err(e)) => a == AddAction::Fail(e),
            AddEvent::Worktrees(Err(e)) => a == AddAction::Fail(e),
            AddEvent::Done(Err(e)) => a == AddAction::Fail(e),
            AddEvent::Text(Ok(t)) => if s.stage == AddStage::MainRoot {
                moves_to(n, a, AddView { stage: AddStage::Bare, main_root: t@, ..s })
            } else {
                moves_to(n, a, AddView { stage: AddStage::Target, target: t@, ..s })
            },
            AddEvent::Status(Ok(st)) => match s.stage {
                AddStage::Bare => if eq_ignore_ascii_case(trim(st.stdout@), "true"@) {
                    a matches AddAction::Fail(AppError::BareRepositoryNotSupported)
                } else {
                    moves_to(n, a, AddView { stage: AddStage::Commits, ..s })
                },
                AddStage::Commits => if !st.success {
                    a matches AddAction::Fail(AppError::EmptyRepository)
                } else {
                    chooses_target(s, n, a)
                },
                AddStage::LocalBranch => moves_to(
                    n,
                    a,
                    AddView { stage: AddStage::RemoteBranch, branch_exists: st.success, ..s },
                ),
                AddStage::RemoteBranch => if !st.success {
                    a matches AddAction::Fail(e) && is_failure_error(
                        seq!["for-each-ref"@, "--format=%(refname:strip=2)"@, "refs/remotes"@],
                        st.stderr@,
                        e,
                    )
                } else if s.branch_exists && (s.base is Some || s.track is Some) {
                    a matches AddAction::Fail(
                        AppError::BranchAlreadyExistsCannotSpecifyBaseOrTrack { branch },
                    ) && branch@ == s.name
                } else if s.branch_exists {
                    moves_to(
                        n,
                        a,
                        AddView {
                            stage: AddStage::CheckedOut,
                            remote_exists: remote_has_branch(st.stdout@, s.name),
                            ..s
                        },
                    )
                } else {
                    to_parent(
                        AddView { remote_exists: remote_has_branch(st.stdout@, s.name), ..s },
                        n,
                        a,
                    )
                },
                _ => if st.success {
                    a matches AddAction::Finish(t) && t@ == s.target
                } else {
                    a matches AddAction::Fail(e) && is_failure_error(create_args(s), st.stderr@, e)
                },
            },
            AddEvent::Flag(exists) => if exists {
                a matches AddAction::Fail(AppError::PathAlreadyExists { path }) && path@ == s.target
            } else {
                moves_to(n, a, AddView { stage: AddStage::LocalBranch, ..s })
            },
            AddEvent::Worktrees(Ok(ws)) => if exists|i: int|
                first_on_branch(infos(ws@), s.name, i) {
                a matches AddAction::Fail(AppError::BranchAlreadyCheckedOut { branch, path })
                    && branch@ == s.name && exists|i: int|
                    first_on_branch(infos(ws@), s.name, i) && path@ == infos(ws@)[i].path
            } else {
                to_parent(s, n, a)
            },
            AddEvent::Done(Ok(())) => moves_to(n, a, AddView { stage: AddStage::Create, ..s }),
        }
    }
}

fn copy_opt(o: &Option<String>) -> (r: Option<String>)
    ensures
        opt_view(r) == opt_view(*o),
{
    match o {
        Some(s) => Some(string_of(&chars_of(s.as_str()))),
        None => None,
    }
}

fn copy_str(s: &String) -> (r: String)
    ensures
        r@ == s@,
{
    string_of(&chars_of(s.as_str()))
}

fn own_opt(o: Option<&str>) -> (r: Option<String>)
    ensures
        opt_view(r) == crate::git::ops::opt_str(o),
{
    match o {
        Some(x) => Some(string_of(&chars_of(x))),
        None => None,
    }
}

fn as_opt_str(o: &Option<String>) -> (r: Option<&str>)
    ensures
        crate::git::ops::opt_str(r) == opt_view(*o),
{
    match o {
        Some(s) => Some(s.as_str()),
        None => None,
    }
}

/// The action that asks the question of the stage of `s`.
fn ask(s: &AddState) -> (r: AddAction)
    requires
        add_wf(s@),
    ensures
        asks(s@, r),
{
    match s.stage {
        AddStage::MainRoot => AddAction::FindMainRoot,
        AddStage::Bare => {
            let mut a: Vec<String> = Vec::new();
            push_str(&mut a, "rev-parse");
            push_str(&mut a, "--is-bare-repository");
            assert(strings(a@) =~= seq!["rev-parse"@, "--is-bare-repository"@]);
            AddAction::RunGit(a)
        },
        AddStage::Commits => {
            let mut a: Vec<String> = Vec::new();
            push_str(&mut a, "rev-parse");
            push_str(&mut a, "--verify");
            push_str(&mut a, "--quiet");
            push_str(&mut a, "HEAD");
            assert(strings(a@) =~= seq!["rev-parse"@, "--verify"@, "--quiet"@, "HEAD"@]);
            AddAction::RunGit(a)
        },
        AddStage::Custom => AddAction::MakeAbsolute(copy_str(s.path.as_ref().unwrap())),
        AddStage::Target => AddAction::CheckExists(copy_str(&s.target)),
        AddStage::LocalBranch => AddAction::RunGit(branch_check_args(s.name.as_str())),
        AddStage::RemoteBranch => AddAction::RunGit(remote_branches_args()),
        AddStage::CheckedOut => AddAction::ListWorktrees,
        AddStage::Parent => AddAction::CreateDir(
            string_of(&path_parent(&chars_of(s.target.as_str())).unwrap()),
        ),
        AddStage::Create => AddAction::RunGit(
            add_worktree(
                s.target.as_str(),
                s.name.as_str(),
                as_opt_str(&s.base),
                as_opt_str(&s.track),
                s.branch_exists,
                s.remote_exists,
            ),
        ),
    }
}

/// The first step of `wt add` for branch `name`, with an optional base,
/// upstream and custom path: find the main worktree.
pub fn add_start(name: &str, base: Option<&str>, track: Option<&str>, path: Option<&str>) -> (r: (
    AddState,
    AddAction,
))
    ensures
        r.0@ == (AddView {
            name: name@,
            base: crate::git::ops::opt_str(base),
            track: crate::git::ops::opt_str(track),
            path: crate::git::ops::opt_str(path),
            stage: AddStage::MainRoot,
            main_root: seq![],
            target: seq![],
            branch_exists: false,
            remote_exists: false,
        }),
        r.1 is FindMainRoot,
{
    let st = AddState {
        name: string_of(&chars_of(name)),
        base: own_opt(base),
        track: own_opt(track),
        path: own_opt(path),
        stage: AddStage::MainRoot,
        main_root: string_of(&Vec::new()),
        target: string_of(&Vec::new()),
        branch_exists: false,
        remote_exists: false,
    };
    assert(st@.main_root =~= Seq::<char>::empty());
    assert(st@.target =~= Seq::<char>::empty());
    (st, AddAction::FindMainRoot)
}

/// Moves to the next stage `n` and asks its question.
fn move_to(n: AddState) -> (r: (AddState, AddAction))
    requires
        add_wf(n@),
    ensures
        moves_to(r.0@, r.1, n@),
{
    let a = ask(&n);
    (n, a)
}

/// Creates the target's parent directory first when it has one, else the
/// worktree.
fn go_parent(s: AddState) -> (r: (AddState, AddAction))
    ensures
        to_parent(s@, r.0@, r.1),
{
    match path_parent(&chars_of(s.target.as_str())) {
        Some(_) => move_to(AddState { stage: AddStage::Parent, ..s }),
        None => move_to(AddState { stage: AddStage::Create, ..s }),
    }
}

/// Takes the custom path when one was given, else infers the target.
fn choose_target(s: AddState) -> (r: (AddState, AddAction))
    ensures
        chooses_target(s@, r.0@, r.1),
{
    if s.path.is_some() {
        return move_to(AddState { stage: AddStage::Custom, ..s });
    }
    match infer_worktree_path(s.main_root.as_str(), s.name.as_str()) {
        Ok(p) => move_to(AddState { stage: AddStage::Target, target: p, ..s }),
        Err(e) => (s, AddAction::Fail(e)),
    }
}

/// The next step of `wt add` once `event` answers the pending question:
/// each step either fails, finishes, asks the same question again (for an
/// answer of another kind) or moves to a later stage, so a dialogue asks at
/// most ten questions that it gets fitting answers to.
pub fn add_next(state: AddState, event: AddEvent) -> (r: (AddState, AddAction))
    ensures
        add_transition(state@, event, r.0@, r.1),
        fits(state@.stage, event) && !(r.1 is Fail) && !(r.1 is Finish) ==> stage_rank(r.0@.stage)
            > stage_rank(state@.stage),
{
    proof {
        use_type_invariant(&state);
    }
    let s = state;
    match event {
        AddEvent::Text(res) => match s.stage {
            AddStage::MainRoot => match res {
                Ok(t) => move_to(AddState { stage: AddStage::Bare, main_root: t, ..s }),
                Err(e) => (s, AddAction::Fail(e)),
            },
            AddStage::Custom => match res {
                Ok(t) => move_to(AddState { stage: AddStage::Target, target: t, ..s }),
                Err(e) => (s, AddAction::Fail(e)),
            },
            _ => move_to(s),
        },
        AddEvent::Status(res) => match s.stage {
            AddStage::Bare => match res {
                Ok(st) => match check_repository(is_bare_answer(st.stdout.as_str()), true) {
                    Ok(()) => move_to(AddState { stage: AddStage::Commits, ..s }),
                    Err(e) => (s, AddAction::Fail(e)),
                },
                Err(e) => (s, AddAction::Fail(e)),
            },
            AddStage::Commits => match res {
                Ok(st) => match check_repository(false, st.success) {
                    Ok(()) => choose_target(s),
                    Err(e) => (s, AddAction::Fail(e)),
                },
                Err(e) => (s, AddAction::Fail(e)),
            },
            AddStage::LocalBranch => match res {
                Ok(st) => move_to(
                    AddState { stage: AddStage::RemoteBranch, branch_exists: st.success, ..s },
                ),
                Err(e) => (s, AddAction::Fail(e)),
            },
            AddStage::RemoteBranch => match res {
                Ok(st) => {
                    if !st.success {
                        let e = map_git_failure(&remote_branches_args(), &st);
                        return (s, AddAction::Fail(e));
                    }
                    let checked = check_existing_branch(
                        s.name.as_str(),
                        s.branch_exists,
                        as_opt_str(&s.base),
                        as_opt_str(&s.track),
                    );
                    match checked {
                        Err(e) => (s, AddAction::Fail(e)),
                        Ok(()) => {
                            let remote = check_remote_branch_exists(
                                st.stdout.as_str(),
                                s.name.as_str(),
                            );
                            if s.branch_exists {
                                move_to(
                                    AddState {
                                        stage: AddStage::CheckedOut,
                                        remote_exists: remote,
                                        ..s
                                    },
                                )
                            } else {
                                go_parent(AddState { remote_exists: remote, ..s })
                            }
                        },
                    }
                },
                Err(e) => (s, AddAction::Fail(e)),
            },
            AddStage::Create => match res {
                Ok(st) => {
                    if st.success {
                        let t = copy_str(&s.target);
                        (s, AddAction::Finish(t))
                    } else {
                        let args = add_worktree(
                            s.target.as_str(),
                            s.name.as_str(),
                            as_opt_str(&s.base),
                            as_opt_str(&s.track),
                            s.branch_exists,
                            s.remote_exists,
                        );
                        let e = map_git_failure(&args, &st);
                        (s, AddAction::Fail(e))
                    }
                },
                Err(e) => (s, AddAction::Fail(e)),
            },
            _ => move_to(s),
        },
        AddEvent::Flag(exists) => match s.stage {
            AddStage::Target => match check_target_free(s.target.as_str(), exists) {
                Ok(()) => move_to(AddState { stage: AddStage::LocalBranch, ..s }),
                Err(e) => (s, AddAction::Fail(e)),
            },
            _ => move_to(s),
        },
        AddEvent::Worktrees(res) => match s.stage {
            AddStage::CheckedOut => match res {
                Ok(ws) => match check_not_checked_out(&ws, s.name.as_str()) {
                    Ok(()) => go_parent(s),
                    Err(e) => (s, AddAction::Fail(e)),
                },
                Err(e) => (s, AddAction::Fail(e)),
            },
            _ => move_to(s),
        },
        AddEvent::Done(res) => match s.stage {
            AddStage::Parent => match res {
                Ok(()) => move_to(AddState { stage: AddStage::Create, ..s }),
                Err(e) => (s, AddAction::Fail(e)),
            },
            _ => move_to(s),
        },
    }
}

/// The answer to the bare-repository question says "not bare".
pub open spec fn not_bare(ev: AddEvent) -> bool {
    ev matches AddEvent::Status(Ok(st)) && !eq_ignore_ascii_case(trim(st.stdout@), "true"@)
}

/// The answer to the HEAD question says HEAD names a commit.
pub open spec fn has_commit(ev: AddEvent) -> bool {
    ev matches AddEvent::Status(Ok(st)) && st.success
}

/// The worktree list holds no worktree on branch `name`.
pub open spec fn not_checked_out(ev: AddEvent, name: Seq<char>) -> bool {
    ev matches AddEvent::Worktrees(Ok(ws)) && forall|i: int|
        0 <= i < ws@.len() ==> (#[trigger] infos(ws@)[i]).branch != Some(name)
}

/// A dialogue of `wt add`: `ss[k + 1]` and `acts[k]` follow from `ss[k]` on
/// the answer `evs[k]`, and every action but the last asks a question.
pub open spec fn add_dialogue(ss: Seq<AddView>, evs: Seq<AddEvent>, acts: Seq<AddAction>) -> bool {
    &&& ss.len() == evs.len() + 1
    &&& acts.len() == evs.len()
    &&& forall|k: int|
        0 <= k < evs.len() ==> add_transition(ss[k], evs[k], ss[k + 1], #[trigger] acts[k])
    &&& forall|k: int|
        0 <= k < acts.len() - 1 ==> !(#[trigger] acts[k] is Fail) && !(acts[k] is Finish)
}

} // verus!
