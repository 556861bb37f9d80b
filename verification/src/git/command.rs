//! What a git invocation's outcome means, and the questions asked of git.
use vstd::prelude::*;
use crate::error::AppError;
use crate::git::parse::is_null_hash;
use crate::paths::{is_within, path_is_within};
use crate::text::{
    append_chars, chars_eq, chars_of, contains, contains_chars, find_char, lines, separated,
    split_lines, split_once, string_of, strings, trim, trim_chars, views,
};

verus! {

/// The outcome of a finished git process: its exit status and its trimmed
/// output streams.
#[derive(Debug)]
pub struct CommandStatus {
    pub success: bool,
    pub stdout: String,
    pub stderr: String,
}

/// The words of `ws` separated by single spaces.
pub open spec fn joined(ws: Seq<Seq<char>>) -> Seq<char> {
    separated(ws, " "@)
}

/// Joins strings with `sep` between each two.
pub fn join_strings(args: &Vec<String>, sep: &str) -> (r: Vec<char>)
    ensures
        r@ == separated(strings(args@), sep@),
{
    let mut r: Vec<char> = Vec::new();
    let sep_chars = chars_of(sep);
    let mut i: usize = 0;
    assert(strings(args@).take(0) =~= Seq::<Seq<char>>::empty());
    while i < args.len()
        invariant
            i <= args.len(),
            sep_chars@ == sep@,
            r@ == separated(strings(args@).take(i as int), sep@),
        decreases args.len() - i,
    {
        assert(strings(args@).take(i + 1).drop_last() =~= strings(args@).take(i as int));
        if i > 0 {
            append_chars(&mut r, &sep_chars);
        }
        append_chars(&mut r, &chars_of(args[i].as_str()));
        i += 1;
        assert(i == 1 ==> r@ =~= strings(args@).take(i as int)[0]);
    }
    assert(strings(args@).take(args.len() as int) =~= strings(args@));
    r
}

/// Joins strings with single spaces.
pub fn join_args(args: &Vec<String>) -> (r: Vec<char>)
    ensures
        r@ == joined(strings(args@)),
{
    join_strings(args, " ")
}

/// Which error a failed git invocation stands for: a missing repository, a
/// bare repository, or git's own message (a fixed text when it printed none).
pub open spec fn failure_kind(args: Seq<Seq<char>>, stderr: Seq<char>) -> Result<Seq<char>, bool> {
    if contains(stderr, "not a git repository"@) {
        Err(true)
    } else if contains(stderr, "this operation must be run in a work tree"@) || contains(
        stderr,
        "must be run in a work tree"@,
    ) {
        Err(false)
    } else if stderr.len() == 0 {
        Ok("git "@ + joined(args) + " failed (exit code unknown)"@)
    } else {
        Ok(stderr)
    }
}

/// The error a failed git invocation means, as `failure_kind` describes it.
pub open spec fn is_failure_error(args: Seq<Seq<char>>, stderr: Seq<char>, e: AppError) -> bool {
    match failure_kind(args, stderr) {
        Err(true) => e is NotAGitRepository,
        Err(false) => e is BareRepositoryNotSupported,
        Ok(m) => e matches AppError::GitError { message } && message@ == m,
    }
}

/// Translates a failed git invocation into the most specific error.
pub fn map_git_failure(args: &Vec<String>, status: &CommandStatus) -> (r: AppError)
    ensures
        is_failure_error(strings(args@), status.stderr@, r),
{
    let err = chars_of(status.stderr.as_str());
    if contains_chars(&err, &chars_of("not a git repository")) {
        return AppError::NotAGitRepository;
    }
    if contains_chars(&err, &chars_of("this operation must be run in a work tree"))
        || contains_chars(&err, &chars_of("must be run in a work tree")) {
        return AppError::BareRepositoryNotSupported;
    }
    if err.len() == 0 {
        let mut m = chars_of("git ");
        append_chars(&mut m, &join_args(args));
        append_chars(&mut m, &chars_of(" failed (exit code unknown)"));
        AppError::GitError { message: string_of(&m) }
    } else {
        AppError::GitError { message: string_of(&err) }
    }
}

/// The result of a git invocation: its standard output when it succeeded,
/// else the error its failure stands for.
pub fn run_git(args: &Vec<String>, status: &CommandStatus) -> (r: Result<String, AppError>)
    ensures
        status.success ==> (r matches Ok(out) && out@ == status.stdout@),
        !status.success ==> (r matches Err(e) && is_failure_error(
            strings(args@),
            status.stderr@,
            e,
        )),
{
    if !status.success {
        return Err(map_git_failure(args, status));
    }
    Ok(string_of(&chars_of(status.stdout.as_str())))
}

/// Both output streams of a process, each trimmed, standard output first and
/// a line break between them when both are non-empty.
pub open spec fn combined(stdout: Seq<char>, stderr: Seq<char>) -> Seq<char> {
    (if stdout.len() > 0 {
        trim(stdout) + (if stderr.len() > 0 {
            "\n"@
        } else {
            seq![]
        })
    } else {
        seq![]
    }) + (if stderr.len() > 0 {
        trim(stderr)
    } else {
        seq![]
    })
}

/// Combines both output streams of a process.
pub fn combine_output(stdout: &str, stderr: &str) -> (r: String)
    ensures
        r@ == combined(stdout@, stderr@),
{
    let out = chars_of(stdout);
    let err = chars_of(stderr);
    let mut r: Vec<char> = Vec::new();
    if out.len() > 0 {
        append_chars(&mut r, &trim_chars(&out));
        if err.len() > 0 {
            append_chars(&mut r, &chars_of("\n"));
        }
    }
    if err.len() > 0 {
        append_chars(&mut r, &trim_chars(&err));
    }
    assert(r@ =~= combined(stdout@, stderr@));
    string_of(&r)
}

/// The result of a git invocation that reports on either stream: both
/// streams combined when it succeeded, else the error its failure stands for.
pub fn run_git_stderr(args: &Vec<String>, status: &CommandStatus) -> (r: Result<String, AppError>)
    ensures
        status.success ==> (r matches Ok(out) && out@ == combined(status.stdout@, status.stderr@)),
        !status.success ==> (r matches Err(e) && is_failure_error(
            strings(args@),
            status.stderr@,
            e,
        )),
{
    if !status.success {
        return Err(map_git_failure(args, status));
    }
    Ok(combine_output(status.stdout.as_str(), status.stderr.as_str()))
}

/// Appends the string `s` to `v`.
pub fn push_str(v: &mut Vec<String>, s: &str)
    ensures
        strings(final(v)@) == strings(old(v)@).push(s@),
{
    let x = string_of(&chars_of(s));
    proof {
        crate::text::lemma_strings_push(v@, x);
    }
    v.push(x);
}

/// The git arguments that test whether the local branch `branch_name`
/// exists; it exists when the command succeeds.
pub fn branch_check_args(branch_name: &str) -> (r: Vec<String>)
    ensures
        strings(r@) == seq!["show-ref"@, "--verify"@, "--quiet"@, "refs/heads/"@ + branch_name@],
{
    let mut r: Vec<String> = Vec::new();
    push_str(&mut r, "show-ref");
    push_str(&mut r, "--verify");
    push_str(&mut r, "--quiet");
    let mut refname = chars_of("refs/heads/");
    append_chars(&mut refname, &chars_of(branch_name));
    push_str(&mut r, string_of(&refname).as_str());
    assert(strings(r@) =~= seq!["show-ref"@, "--verify"@, "--quiet"@, "refs/heads/"@
        + branch_name@]);
    r
}

/// The git arguments that list every remote-tracking branch as `<remote>/<branch>`.
pub fn remote_branches_args() -> (r: Vec<String>)
    ensures
        strings(r@) == seq!["for-each-ref"@, "--format=%(refname:strip=2)"@, "refs/remotes"@],
{
    let mut r: Vec<String> = Vec::new();
    push_str(&mut r, "for-each-ref");
    push_str(&mut r, "--format=%(refname:strip=2)");
    push_str(&mut r, "refs/remotes");
    assert(strings(r@) =~= seq!["for-each-ref"@, "--format=%(refname:strip=2)"@, "refs/remotes"@]);
    r
}

/// One `<remote>/<branch>` line names `branch`.
pub open spec fn names_remote_branch(line: Seq<char>, branch: Seq<char>) -> bool {
    match split_once(line, '/') {
        Some((_, b)) => b == branch,
        None => false,
    }
}

/// Some remote has a branch called `branch_name`, according to the
/// `<remote>/<branch>` lines of `output`.
pub fn check_remote_branch_exists(output: &str, branch_name: &str) -> (r: bool)
    ensures
        r == exists|i: int|
            0 <= i < lines(output@).len() && names_remote_branch(
                #[trigger] lines(output@)[i],
                branch_name@,
            ),
{
    let ls = split_lines(&chars_of(output));
    let name = chars_of(branch_name);
    let ghost lv = views(ls@);
    let mut i: usize = 0;
    while i < ls.len()
        invariant
            i <= ls.len(),
            lv == views(ls@),
            lv == lines(output@),
            name@ == branch_name@,
            forall|j: int| 0 <= j < i ==> !names_remote_branch(#[trigger] lv[j], branch_name@),
        decreases ls.len() - i,
    {
        let l = &ls[i];
        assert(lv[i as int] == l@);
        assert(l@.subrange(0, l@.len() as int) =~= l@);
        match find_char(l, 0, l.len(), '/') {
            Some(k) => {
                let b = crate::text::slice_chars(l, k + 1, l.len());
                if chars_eq(&b, &name) {
                    assert(names_remote_branch(lv[i as int], branch_name@));
                    return true;
                }
            },
            None => {},
        }
        i += 1;
    }
    false
}

/// The git arguments that list the branches containing `hash`, or none when
/// `hash` is the null hash (nothing can be lost then).
pub fn reachability_args(hash: &str) -> (r: Option<Vec<String>>)
    ensures
        is_null_hash(hash@) ==> r is None,
        !is_null_hash(hash@) ==> (r matches Some(a) && strings(a@) == seq![
            "for-each-ref"@,
            "--contains"@,
            hash@,
            "refs/heads"@,
            "refs/remotes"@,
        ]),
{
    if crate::git::parse::null_hash(hash) {
        return None;
    }
    let mut a: Vec<String> = Vec::new();
    push_str(&mut a, "for-each-ref");
    push_str(&mut a, "--contains");
    push_str(&mut a, hash);
    push_str(&mut a, "refs/heads");
    push_str(&mut a, "refs/remotes");
    assert(strings(a@) =~= seq![
        "for-each-ref"@,
        "--contains"@,
        hash@,
        "refs/heads"@,
        "refs/remotes"@,
    ]);
    Some(a)
}

/// The commit `hash` cannot be lost: it is the null hash, or some local or
/// remote branch contains it (the branch listing `output` is non-empty).
pub fn is_commit_merged_or_reachable(hash: &str, output: &str) -> (r: bool)
    ensures
        r == (is_null_hash(hash@) || output@.len() > 0),
{
    crate::git::parse::null_hash(hash) || chars_of(output).len() > 0
}


/// The path of the first `worktree <path>` line of `git worktree list
/// --porcelain`: the main worktree, which git always lists first.
pub open spec fn first_worktree_entry(ls: Seq<Seq<char>>) -> Option<Seq<char>>
    decreases ls.len(),
{
    if ls.len() == 0 {
        None
    } else if crate::text::starts_with(ls[0], "worktree "@) {
        Some(ls[0].skip("worktree "@.len() as int))
    } else {
        first_worktree_entry(ls.drop_first())
    }
}

/// The path that git reports for the main worktree.
pub fn main_worktree_entry(output: &str) -> (r: Result<String, AppError>)
    ensures
        match first_worktree_entry(lines(output@)) {
            Some(p) => r matches Ok(s) && s@ == p,
            None => r matches Err(AppError::GitError { message }) && message@
                == "cannot determine the main worktree root"@,
        },
{
    let ls = split_lines(&chars_of(output));
    let prefix = chars_of("worktree ");
    let ghost lv = views(ls@);
    let mut i: usize = 0;
    assert(lv.skip(0) =~= lv);
    while i < ls.len()
        invariant
            i <= ls.len(),
            lv == views(ls@),
            lv == lines(output@),
            prefix@ == "worktree "@,
            first_worktree_entry(lv.skip(i as int)) == first_worktree_entry(lv),
        decreases ls.len() - i,
    {
        assert(lv.skip(i as int)[0] == ls@[i as int]@);
        assert(lv.skip(i as int).drop_first() =~= lv.skip(i + 1));
        if crate::text::has_prefix(&ls[i], &prefix) {
            let rest = crate::text::slice_chars(&ls[i], prefix.len(), ls[i].len());
            assert(rest@ =~= ls@[i as int]@.skip(prefix@.len() as int));
            return Ok(string_of(&rest));
        }
        i += 1;
    }
    Err(AppError::GitError { message: string_of(&chars_of("cannot determine the main worktree root")) })
}

/// Where the root of the main worktree is read from.
#[derive(Debug)]
pub enum MainRoot {
    /// The path that `git worktree list` gives for the main worktree.
    Listed(String),
    /// The current worktree's top level (`git rev-parse --show-toplevel`).
    Toplevel,
}

/// Git lists a submodule's main worktree as its git directory, inside the
/// common git directory: then the checked-out top level is the root;
/// otherwise the listed path is.
pub fn main_root_source(listed: &str, common_dir: &str) -> (r: MainRoot)
    ensures
        is_within(listed@, common_dir@) ==> r is Toplevel,
        !is_within(listed@, common_dir@) ==> (r matches MainRoot::Listed(p) && p@ == listed@),
{
    if path_is_within(listed, common_dir) {
        MainRoot::Toplevel
    } else {
        MainRoot::Listed(string_of(&chars_of(listed)))
    }
}

/// The error for a git process that could not be started: git missing from
/// the `PATH` (`not_found`), or else the I/O error itself.
pub fn spawn_failure(e: std::io::Error, not_found: bool) -> (r: AppError)
    ensures
        not_found ==> r is GitNotFound,
        !not_found ==> r == AppError::Io(e),
{
    if not_found {
        AppError::GitNotFound
    } else {
        AppError::Io(e)
    }
}

} // verus!
