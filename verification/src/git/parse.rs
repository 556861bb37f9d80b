//! Parsers for git's porcelain output and the worktree path rules.
use vstd::prelude::*;
use crate::error::AppError;
use crate::models::{clean_status, InfoView, WorktreeInfo, WorktreeStatus};
use crate::paths::{file_name, is_absolute, join, parent, path_file_name, path_join, path_parent};
use crate::text::{
    alphanumeric, append_chars, before_first, chars_before, chars_eq, chars_of, find_char,
    has_prefix, is_alphanumeric, lines, parse_u32, parse_u32_chars,
    slice_chars, split_lines, split_once, split_words, starts_with, string_of, strings, trim,
    trim_chars, views, words,
};

verus! {

/// The views of a sequence of worktree records.
pub open spec fn infos(v: Seq<WorktreeInfo>) -> Seq<InfoView> {
    v.map_values(|w: WorktreeInfo| w@)
}

/// A branch ref without its `refs/heads/` prefix.
pub open spec fn short_branch(b: Seq<char>) -> Seq<char> {
    if starts_with(b, "refs/heads/"@) {
        b.skip("refs/heads/"@.len() as int)
    } else {
        b
    }
}

/// The display name of a worktree: its branch, else the final component of
/// its path, else `unknown`.
pub open spec fn worktree_name(path: Seq<char>, branch: Option<Seq<char>>) -> Seq<char> {
    match branch {
        Some(b) => b,
        None => match file_name(path) {
            Some(n) => n,
            None => "unknown"@,
        },
    }
}

/// The keys of one porcelain block that the parser reads.
pub struct BlockView {
    pub worktree: Option<Seq<char>>,
    pub head: Option<Seq<char>>,
    pub branch: Option<Seq<char>>,
}

/// A block with no keys read yet.
pub open spec fn empty_block() -> BlockView {
    BlockView { worktree: None, head: None, branch: None }
}

/// The key of a porcelain line: the text before its first space, or the whole line.
pub open spec fn line_key(l: Seq<char>) -> Seq<char> {
    match split_once(l, ' ') {
        Some((k, _)) => k,
        None => l,
    }
}

/// The value of a porcelain line: the text after its first space, or empty.
pub open spec fn line_value(l: Seq<char>) -> Seq<char> {
    match split_once(l, ' ') {
        Some((_, v)) => v,
        None => seq![],
    }
}

/// The block after reading one non-empty line; a later line with the same
/// key replaces an earlier one.
pub open spec fn record_line(b: BlockView, l: Seq<char>) -> BlockView {
    let k = line_key(l);
    let v = line_value(l);
    if k == "worktree"@ {
        BlockView { worktree: Some(v), ..b }
    } else if k == "HEAD"@ {
        BlockView { head: Some(v), ..b }
    } else if k == "branch"@ {
        BlockView { branch: Some(v), ..b }
    } else {
        b
    }
}

/// The worktree that a finished block describes, when it names a path.
pub open spec fn block_worktree(b: BlockView) -> Option<InfoView> {
    match b.worktree {
        None => None,
        Some(p) => {
            let branch = match b.branch {
                Some(r) => Some(short_branch(r)),
                None => None,
            };
            Some(
                InfoView {
                    path: p,
                    name: worktree_name(p, branch),
                    branch: branch,
                    head_hash: match b.head {
                        Some(h) => h,
                        None => seq![],
                    },
                    head_msg: seq![],
                    status: clean_status(),
                },
            )
        },
    }
}

/// The value as a sequence of zero or one element.
pub open spec fn opt_seq<T>(o: Option<T>) -> Seq<T> {
    match o {
        Some(x) => seq![x],
        None => seq![],
    }
}

/// The worktrees finished and the block being read after the lines `ls`:
/// an empty line ends a block.
pub open spec fn scan_blocks(ls: Seq<Seq<char>>) -> (Seq<InfoView>, BlockView)
    decreases ls.len(),
{
    if ls.len() == 0 {
        (seq![], empty_block())
    } else {
        let (done, cur) = scan_blocks(ls.drop_last());
        let l = ls.last();
        if l.len() == 0 {
            (done + opt_seq(block_worktree(cur)), empty_block())
        } else {
            (done, record_line(cur, l))
        }
    }
}

/// The worktrees that `git worktree list --porcelain` output describes.
pub open spec fn parsed_worktrees(raw: Seq<char>) -> Seq<InfoView> {
    let (done, cur) = scan_blocks(lines(raw));
    done + opt_seq(block_worktree(cur))
}

struct Block {
    worktree: Option<Vec<char>>,
    head: Option<Vec<char>>,
    branch: Option<Vec<char>>,
}

spec fn opt_chars(o: Option<Vec<char>>) -> Option<Seq<char>> {
    match o {
        Some(v) => Some(v@),
        None => None,
    }
}

impl Block {
    spec fn view(&self) -> BlockView {
        BlockView {
            worktree: opt_chars(self.worktree),
            head: opt_chars(self.head),
            branch: opt_chars(self.branch),
        }
    }
}

/// The display name of a worktree: its branch, else the final component of
/// its path, else `unknown`.
pub fn derive_name(path: &str, branch: Option<&str>) -> (r: String)
    ensures
        r@ == worktree_name(
            path@,
            match branch {
                Some(b) => Some(b@),
                None => None,
            },
        ),
{
    match branch {
        Some(b) => string_of(&chars_of(b)),
        None => match path_file_name(&chars_of(path)) {
            Some(n) => string_of(&n),
            None => string_of(&chars_of("unknown")),
        },
    }
}

fn short_branch_chars(b: &Vec<char>) -> (r: Vec<char>)
    ensures
        r@ == short_branch(b@),
{
    let prefix = chars_of("refs/heads/");
    if has_prefix(b, &prefix) {
        slice_chars(b, prefix.len(), b.len())
    } else {
        slice_chars(b, 0, b.len())
    }
}

fn some_string(o: &Option<Vec<char>>) -> (r: Option<String>)
    ensures
        match r {
            Some(s) => o matches Some(v) && s@ == v@,
            None => o is None,
        },
{
    match o {
        Some(v) => Some(string_of(v)),
        None => None,
    }
}

fn flush_block(b: &Block) -> (r: Option<WorktreeInfo>)
    ensures
        match r {
            Some(w) => block_worktree(b.view()) == Some(w@),
            None => block_worktree(b.view()) is None,
        },
{
    match &b.worktree {
        None => None,
        Some(p) => {
            let branch: Option<Vec<char>> = match &b.branch {
                Some(r) => Some(short_branch_chars(r)),
                None => None,
            };
            let branch_str = some_string(&branch);
            let path = string_of(p);
            let name = match &branch_str {
                Some(s) => derive_name(path.as_str(), Some(s.as_str())),
                None => derive_name(path.as_str(), None),
            };
            let head_hash = match &b.head {
                Some(h) => string_of(h),
                None => string_of(&Vec::new()),
            };
            let w = WorktreeInfo {
                path,
                name,
                branch: branch_str,
                head_hash,
                head_msg: string_of(&Vec::new()),
                status: WorktreeStatus::clean(),
            };
            assert(w@.head_msg =~= Seq::<char>::empty());
            assert(b.head is None ==> w@.head_hash =~= Seq::<char>::empty());
            Some(w)
        },
    }
}

/// Reads one non-empty line into the block.
fn record(b: &mut Block, l: &Vec<char>)
    ensures
        final(b).view() == record_line(old(b).view(), l@),
{
    let (key, value) = match find_char(l, 0, l.len(), ' ') {
        Some(k) => (slice_chars(l, 0, k), slice_chars(l, k + 1, l.len())),
        None => (slice_chars(l, 0, l.len()), Vec::new()),
    };
    assert(l@.subrange(0, l@.len() as int) =~= l@);
    assert(key@ == line_key(l@));
    assert(value@ =~= line_value(l@));
    if chars_eq(&key, &chars_of("worktree")) {
        b.worktree = Some(value);
    } else if chars_eq(&key, &chars_of("HEAD")) {
        b.head = Some(value);
    } else if chars_eq(&key, &chars_of("branch")) {
        b.branch = Some(value);
    }
}

/// The worktrees that `git worktree list --porcelain` output describes, in
/// order; blocks without a `worktree` line are skipped.
pub fn parse_worktree_list(raw: &str) -> (r: Vec<WorktreeInfo>)
    ensures
        infos(r@) == parsed_worktrees(raw@),
{
    let chars = chars_of(raw);
    let ls = split_lines(&chars);
    let ghost lv = views(ls@);
    let mut out: Vec<WorktreeInfo> = Vec::new();
    let mut cur = Block { worktree: None, head: None, branch: None };
    let mut i: usize = 0;
    assert(lv.take(0) =~= Seq::<Seq<char>>::empty());
    while i < ls.len()
        invariant
            i <= ls.len(),
            lv == views(ls@),
            scan_blocks(lv.take(i as int)) == (infos(out@), cur.view()),
        decreases ls.len() - i,
    {
        let l = &ls[i];
        assert(lv.take(i + 1).drop_last() =~= lv.take(i as int));
        assert(lv.take(i + 1).last() == l@);
        if l.len() == 0 {
            match flush_block(&cur) {
                Some(w) => {
                    proof {
                        assert(infos(out@.push(w)) =~= infos(out@) + seq![w@]);
                    }
                    out.push(w);
                },
                None => {
                    assert(infos(out@) + Seq::<InfoView>::empty() =~= infos(out@));
                },
            }
            cur = Block { worktree: None, head: None, branch: None };
        } else {
            record(&mut cur, l);
        }
        i += 1;
    }
    assert(lv.take(ls.len() as int) =~= lv);
    assert(lv == lines(chars@));
    match flush_block(&cur) {
        Some(w) => {
            proof {
                assert(infos(out@.push(w)) =~= infos(out@) + seq![w@]);
            }
            out.push(w);
        },
        None => {
            assert(infos(out@) + Seq::<InfoView>::empty() =~= infos(out@));
        },
    }
    out
}


/// `git status --porcelain` output reports changes: it is not blank.
pub fn parse_dirty(porcelain: &str) -> (r: bool)
    ensures
        r == (trim(porcelain@).len() > 0),
{
    trim_chars(&chars_of(porcelain)).len() > 0
}

/// A number, or 0 when it does not read as a `u32`.
pub open spec fn count_or_zero(w: Seq<char>) -> u32 {
    match parse_u32(w) {
        Some(n) => n,
        None => 0,
    }
}

/// The (ahead, behind) counts of `git rev-list --left-right --count`: its
/// first two words as numbers, a number that does not read being 0, and
/// (0, 0) when there are fewer than two words.
pub open spec fn rev_list_counts(output: Seq<char>) -> (u32, u32) {
    let w = words(output);
    if w.len() < 2 {
        (0, 0)
    } else {
        (count_or_zero(w[0]), count_or_zero(w[1]))
    }
}

/// Reads the (ahead, behind) counts of `git rev-list --left-right --count`.
pub fn parse_rev_list_count(output: &str) -> (r: (u32, u32))
    ensures
        r == rev_list_counts(output@),
{
    let w = split_words(&chars_of(output));
    if w.len() < 2 {
        return (0, 0);
    }
    assert(w@[0]@ == words(output@)[0]);
    assert(w@[1]@ == words(output@)[1]);
    let ahead = match parse_u32_chars(&w[0]) {
        Some(n) => n,
        None => 0,
    };
    let behind = match parse_u32_chars(&w[1]) {
        Some(n) => n,
        None => 0,
    };
    (ahead, behind)
}

/// A character kept as it is in a worktree directory name.
pub open spec fn safe_path_char(c: char) -> bool {
    alphanumeric(c) || c == '.' || c == '_' || c == '-'
}

/// `branch` with every character that is not safe in a directory name
/// replaced by `-`.
pub open spec fn sanitized(branch: Seq<char>) -> Seq<char> {
    branch.map_values(|c: char| if safe_path_char(c) { c } else { '-' })
}

fn is_safe_path_char(c: char) -> (r: bool)
    ensures
        r == safe_path_char(c),
{
    is_alphanumeric(c) || c == '.' || c == '_' || c == '-'
}

fn sanitize_chars(branch: &Vec<char>) -> (r: Vec<char>)
    ensures
        r@ == sanitized(branch@),
{
    let mut r: Vec<char> = Vec::new();
    let mut i: usize = 0;
    while i < branch.len()
        invariant
            i <= branch.len(),
            r@ == sanitized(branch@.take(i as int)),
        decreases branch.len() - i,
    {
        let c = branch[i];
        if is_safe_path_char(c) {
            r.push(c);
        } else {
            r.push('-');
        }
        i += 1;
        assert(r@ =~= sanitized(branch@.take(i as int)));
    }
    assert(branch@.take(branch@.len() as int) =~= branch@);
    r
}

/// `branch` made safe for a directory name: unsafe characters become `-`.
pub fn sanitize_branch_name(branch: &str) -> (r: String)
    ensures
        r@ == sanitized(branch@),
{
    string_of(&sanitize_chars(&chars_of(branch)))
}

/// Every character of `s` is `-` (so also when `s` is empty).
pub open spec fn all_dashes(s: Seq<char>) -> bool {
    forall|i: int| 0 <= i < s.len() ==> s[i] == '-'
}

/// Where `wt add` puts a branch's worktree: beside the repository root, in a
/// directory named after the repository and the sanitized branch.
pub open spec fn inferred_path(root: Seq<char>, branch: Seq<char>) -> Result<Seq<char>, Seq<char>> {
    match file_name(root) {
        None => Err("cannot extract repo name from "@ + root),
        Some(repo) => if all_dashes(sanitized(branch)) {
            Err("invalid branch name for worktree path"@)
        } else {
            match parent(root) {
                None => Err("cannot determine parent of "@ + root),
                Some(p) => Ok(join(p, repo + "-"@ + sanitized(branch))),
            }
        },
    }
}

/// The sibling directory for a new worktree of `branch_name`: the
/// repository's parent joined with `<repo>-<sanitized branch>`.
pub fn infer_worktree_path(repo_root: &str, branch_name: &str) -> (r: Result<String, AppError>)
    ensures
        match inferred_path(repo_root@, branch_name@) {
            Ok(p) => r matches Ok(s) && s@ == p,
            Err(reason) => r matches Err(AppError::PathInferenceFailed { reason: m }) && m@
                == reason,
        },
{
    let root = chars_of(repo_root);
    let repo = match path_file_name(&root) {
        Some(n) => n,
        None => {
            let mut m = chars_of("cannot extract repo name from ");
            append_chars(&mut m, &root);
            return Err(AppError::PathInferenceFailed { reason: string_of(&m) });
        },
    };
    let san = sanitize_chars(&chars_of(branch_name));
    let mut all = true;
    let mut i: usize = 0;
    while i < san.len()
        invariant
            i <= san.len(),
            all <==> forall|j: int| 0 <= j < i ==> san@[j] == '-',
        decreases san.len() - i,
    {
        if san[i] != '-' {
            all = false;
        }
        i += 1;
    }
    if all {
        return Err(
            AppError::PathInferenceFailed {
                reason: string_of(&chars_of("invalid branch name for worktree path")),
            },
        );
    }
    let p = match path_parent(&root) {
        Some(p) => p,
        None => {
            let mut m = chars_of("cannot determine parent of ");
            append_chars(&mut m, &root);
            return Err(AppError::PathInferenceFailed { reason: string_of(&m) });
        },
    };
    let mut dir = repo;
    append_chars(&mut dir, &chars_of("-"));
    append_chars(&mut dir, &san);
    Ok(string_of(&path_join(&p, &dir)))
}


/// `s` trimmed, without one pair of matching single or double quotes around it.
pub open spec fn unquoted(s: Seq<char>) -> Seq<char> {
    let t = trim(s);
    if t.len() >= 2 && ((t[0] == '"' && t.last() == '"') || (t[0] == '\'' && t.last() == '\'')) {
        t.subrange(1, t.len() - 1)
    } else {
        t
    }
}

fn strip_quotes(s: &Vec<char>) -> (r: Vec<char>)
    ensures
        r@ == unquoted(s@),
{
    let t = trim_chars(s);
    let n = t.len();
    if n >= 2 && ((t[0] == '"' && t[n - 1] == '"') || (t[0] == '\'' && t[n - 1] == '\'')) {
        slice_chars(&t, 1, n - 1)
    } else {
        assert(t@.subrange(0, n as int) =~= t@);
        slice_chars(&t, 0, n)
    }
}

/// The stale entry that one line of `git worktree prune --dry-run --verbose`
/// names: `worktrees/<name>` from `Removing worktrees/<name>: <reason>`, or
/// the path from `Removing worktree: <path>` (quotes removed); none for other
/// lines or an empty name.
pub open spec fn prune_entry(line: Seq<char>) -> Option<Seq<char>> {
    let t = trim(line);
    if starts_with(t, "Removing worktrees/"@) {
        let name = trim(before_first(t.skip("Removing worktrees/"@.len() as int), ':'));
        if name.len() > 0 {
            Some("worktrees/"@ + name)
        } else {
            None
        }
    } else if starts_with(t, "Removing worktree: "@) {
        let path = unquoted(trim(before_first(t.skip("Removing worktree: "@.len() as int), ':')));
        if path.len() > 0 {
            Some(path)
        } else {
            None
        }
    } else {
        None
    }
}

/// The stale entries named by the lines `ls`, in order.
pub open spec fn prune_entries(ls: Seq<Seq<char>>) -> Seq<Seq<char>>
    decreases ls.len(),
{
    if ls.len() == 0 {
        seq![]
    } else {
        prune_entries(ls.drop_last()) + opt_seq(prune_entry(ls.last()))
    }
}

fn prune_line(line: &Vec<char>) -> (r: Option<Vec<char>>)
    ensures
        match r {
            Some(v) => prune_entry(line@) == Some(v@),
            None => prune_entry(line@) is None,
        },
{
    let t = trim_chars(line);
    let modern = chars_of("Removing worktrees/");
    let older = chars_of("Removing worktree: ");
    if has_prefix(&t, &modern) {
        let rest = slice_chars(&t, modern.len(), t.len());
        assert(rest@ =~= t@.skip(modern@.len() as int));
        let name = trim_chars(&chars_before(&rest, ':'));
        if name.len() > 0 {
            let mut e = chars_of("worktrees/");
            append_chars(&mut e, &name);
            Some(e)
        } else {
            None
        }
    } else if has_prefix(&t, &older) {
        let rest = slice_chars(&t, older.len(), t.len());
        assert(rest@ =~= t@.skip(older@.len() as int));
        let path = strip_quotes(&trim_chars(&chars_before(&rest, ':')));
        if path.len() > 0 {
            Some(path)
        } else {
            None
        }
    } else {
        None
    }
}

/// The stale worktree entries that `git worktree prune --dry-run --verbose`
/// reports, in order.
pub fn parse_prune_dry_run(output: &str) -> (r: Vec<String>)
    ensures
        strings(r@) == prune_entries(lines(output@)),
{
    let ls = split_lines(&chars_of(output));
    let ghost lv = views(ls@);
    let mut out: Vec<String> = Vec::new();
    let mut i: usize = 0;
    assert(lv.take(0) =~= Seq::<Seq<char>>::empty());
    while i < ls.len()
        invariant
            i <= ls.len(),
            lv == views(ls@),
            strings(out@) == prune_entries(lv.take(i as int)),
        decreases ls.len() - i,
    {
        assert(lv.take(i + 1).drop_last() =~= lv.take(i as int));
        assert(lv.take(i + 1).last() == ls@[i as int]@);
        match prune_line(&ls[i]) {
            Some(e) => {
                let es = string_of(&e);
                assert(strings(out@.push(es)) =~= strings(out@) + seq![es@]);
                out.push(es);
            },
            None => {
                assert(strings(out@) =~= strings(out@) + Seq::<Seq<char>>::empty());
            },
        }
        i += 1;
    }
    assert(lv.take(ls.len() as int) =~= lv);
    out
}

/// A commit message on one line: line breaks and tabs become spaces, and the
/// result is trimmed.
pub open spec fn one_line_message(raw: Seq<char>) -> Seq<char> {
    trim(raw.map_values(|c: char| if c == '\n' || c == '\r' || c == '\t' { ' ' } else { c }))
}

/// The subject of `git log -1 --format=%s` made safe for a table cell.
pub fn head_message(raw: &str) -> (r: String)
    ensures
        r@ == one_line_message(raw@),
{
    let chars = chars_of(raw);
    let mut flat: Vec<char> = Vec::new();
    let mut i: usize = 0;
    while i < chars.len()
        invariant
            i <= chars.len(),
            flat@ == chars@.take(i as int).map_values(
                |c: char| if c == '\n' || c == '\r' || c == '\t' { ' ' } else { c },
            ),
        decreases chars.len() - i,
    {
        let c = chars[i];
        if c == '\n' || c == '\r' || c == '\t' {
            flat.push(' ');
        } else {
            flat.push(c);
        }
        i += 1;
        assert(flat@ =~= chars@.take(i as int).map_values(
            |c: char| if c == '\n' || c == '\r' || c == '\t' { ' ' } else { c },
        ));
    }
    assert(chars@.take(chars@.len() as int) =~= chars@);
    string_of(&trim_chars(&flat))
}

/// The hash of a repository without commits: empty or all zeros.
pub open spec fn is_null_hash(hash: Seq<char>) -> bool {
    forall|i: int| 0 <= i < hash.len() ==> hash[i] == '0'
}

/// Whether `hash` is empty or all zeros.
pub fn null_hash(hash: &str) -> (r: bool)
    ensures
        r == is_null_hash(hash@),
{
    let h = chars_of(hash);
    let mut i: usize = 0;
    while i < h.len()
        invariant
            i <= h.len(),
            h@ == hash@,
            forall|j: int| 0 <= j < i ==> h@[j] == '0',
        decreases h.len() - i,
    {
        if h[i] != '0' {
            return false;
        }
        i += 1;
    }
    true
}

/// Where a worktree's head message comes from: a fixed text, or the output of
/// `git log` with these arguments run in the worktree.
pub enum HeadLookup {
    Fixed(String),
    Log(Vec<String>),
}

/// How to find a worktree's head message: `(stale)` when its directory is
/// gone, `(no commits yet)` for the null hash, else `git log -1 --format=%s <hash>`.
pub fn head_lookup(dir_exists: bool, hash: &str) -> (r: HeadLookup)
    ensures
        !dir_exists ==> (r matches HeadLookup::Fixed(m) && m@ == "(stale)"@),
        dir_exists && is_null_hash(hash@) ==> (r matches HeadLookup::Fixed(m) && m@
            == "(no commits yet)"@),
        dir_exists && !is_null_hash(hash@) ==> (r matches HeadLookup::Log(a) && strings(a@)
            == seq!["log"@, "-1"@, "--format=%s"@, hash@]),
{
    if !dir_exists {
        return HeadLookup::Fixed(string_of(&chars_of("(stale)")));
    }
    if null_hash(hash) {
        return HeadLookup::Fixed(string_of(&chars_of("(no commits yet)")));
    }
    let mut a: Vec<String> = Vec::new();
    a.push(string_of(&chars_of("log")));
    a.push(string_of(&chars_of("-1")));
    a.push(string_of(&chars_of("--format=%s")));
    a.push(string_of(&chars_of(hash)));
    assert(strings(a@) =~= seq!["log"@, "-1"@, "--format=%s"@, hash@]);
    HeadLookup::Log(a)
}


/// The status of a worktree: stale (and nothing else) when its directory is
/// gone; otherwise dirty when `git status --porcelain` reports anything, with
/// the given ahead and behind counts.
pub fn get_worktree_status(dir_exists: bool, porcelain: &str, ahead: u32, behind: u32) -> (r:
    WorktreeStatus)
    ensures
        !dir_exists ==> r == (WorktreeStatus { is_dirty: false, is_stale: true, ahead: 0, behind: 0 }),
        dir_exists ==> r == (WorktreeStatus {
            is_dirty: trim(porcelain@).len() > 0,
            is_stale: false,
            ahead: ahead,
            behind: behind,
        }),
{
    if !dir_exists {
        return WorktreeStatus { is_dirty: false, is_stale: true, ahead: 0, behind: 0 };
    }
    WorktreeStatus { is_dirty: parse_dirty(porcelain), is_stale: false, ahead, behind }
}

/// The record of one known worktree at `path` on `branch`, with a clean
/// status.
pub open spec fn info_record(
    path: Seq<char>,
    branch: Option<Seq<char>>,
    head_hash: Seq<char>,
    head_msg: Seq<char>,
) -> InfoView {
    InfoView {
        path: path,
        name: worktree_name(path, branch),
        branch: branch,
        head_hash: head_hash,
        head_msg: head_msg,
        status: clean_status(),
    }
}

/// The view of an optional string slice.
pub open spec fn opt_str_view(o: Option<&str>) -> Option<Seq<char>> {
    match o {
        Some(b) => Some(b@),
        None => None,
    }
}

fn worktree_record(path: &str, branch: Option<&str>, head_hash: &str, head_msg: &str) -> (r:
    WorktreeInfo)
    ensures
        r@ == info_record(path@, opt_str_view(branch), head_hash@, head_msg@),
{
    let b = match branch {
        Some(b) => Some(string_of(&chars_of(b))),
        None => None,
    };
    WorktreeInfo {
        path: string_of(&chars_of(path)),
        name: derive_name(path, branch),
        branch: b,
        head_hash: string_of(&chars_of(head_hash)),
        head_msg: string_of(&chars_of(head_msg)),
        status: WorktreeStatus::clean(),
    }
}

/// What building the record of one worktree needs next.
#[derive(Debug)]
pub enum InfoStep {
    /// Run git in the worktree with these arguments to read HEAD's hash.
    ReadHead(Vec<String>),
    /// Run git in the worktree with these arguments to read the subject of
    /// the commit `hash`.
    ReadSubject { hash: String, args: Vec<String> },
    /// The record is complete.
    Done(WorktreeInfo),
}

/// HEAD's hash from `git rev-parse --verify --quiet HEAD`: its output, or
/// empty when it failed.
pub open spec fn head_of(rev_parse: Result<String, AppError>) -> Seq<char> {
    match rev_parse {
        Ok(s) => s@,
        Err(_) => seq![],
    }
}

/// The record of the worktree at `path` on `branch`, with a clean status:
/// when its directory is missing, an empty hash and the message `(stale)`;
/// otherwise HEAD's hash is read next.
pub fn get_worktree_info(path: &str, branch: Option<&str>, dir_exists: bool) -> (r: InfoStep)
    ensures
        !dir_exists ==> (r matches InfoStep::Done(w) && w@ == info_record(
            path@,
            opt_str_view(branch),
            seq![],
            "(stale)"@,
        )),
        dir_exists ==> (r matches InfoStep::ReadHead(args) && strings(args@) == seq![
            "rev-parse"@,
            "--verify"@,
            "--quiet"@,
            "HEAD"@,
        ]),
{
    if !dir_exists {
        let w = worktree_record(path, branch, "", "(stale)");
        proof {
            reveal_strlit("");
        }
        assert(w@.head_hash =~= Seq::<char>::empty());
        return InfoStep::Done(w);
    }
    let mut a: Vec<String> = Vec::new();
    crate::git::command::push_str(&mut a, "rev-parse");
    crate::git::command::push_str(&mut a, "--verify");
    crate::git::command::push_str(&mut a, "--quiet");
    crate::git::command::push_str(&mut a, "HEAD");
    assert(strings(a@) =~= seq!["rev-parse"@, "--verify"@, "--quiet"@, "HEAD"@]);
    InfoStep::ReadHead(a)
}

/// The next step for the worktree at `path` (whose directory exists) once
/// `git rev-parse` answered: a repository without commits gets the message
/// `(no commits yet)`; otherwise the commit's subject is read next.
pub fn info_with_head(path: &str, branch: Option<&str>, rev_parse: Result<String, AppError>) -> (r:
    InfoStep)
    ensures
        is_null_hash(head_of(rev_parse)) ==> (r matches InfoStep::Done(w) && w@ == info_record(
            path@,
            opt_str_view(branch),
            head_of(rev_parse),
            "(no commits yet)"@,
        )),
        !is_null_hash(head_of(rev_parse)) ==> (r matches InfoStep::ReadSubject { hash, args }
            && hash@ == head_of(rev_parse) && strings(args@) == seq![
            "log"@,
            "-1"@,
            "--format=%s"@,
            head_of(rev_parse),
        ]),
{
    let hash = match rev_parse {
        Ok(s) => s,
        Err(_) => string_of(&Vec::new()),
    };
    assert(hash@ == head_of(rev_parse));
    match head_lookup(true, hash.as_str()) {
        HeadLookup::Fixed(m) => InfoStep::Done(worktree_record(path, branch, hash.as_str(), m.as_str())),
        HeadLookup::Log(args) => InfoStep::ReadSubject { hash, args },
    }
}

/// The record of the worktree at `path` once `git log` answered for the
/// commit `hash`: its subject on one line, or the error of the git run.
pub fn info_with_subject(
    path: &str,
    branch: Option<&str>,
    hash: &str,
    log: Result<String, AppError>,
) -> (r: Result<WorktreeInfo, AppError>)
    ensures
        match log {
            Ok(raw) => r matches Ok(w) && w@ == info_record(
                path@,
                opt_str_view(branch),
                hash@,
                one_line_message(raw@),
            ),
            Err(e) => r == Err::<WorktreeInfo, AppError>(e),
        },
{
    match log {
        Ok(raw) => Ok(worktree_record(path, branch, hash, head_message(raw.as_str()).as_str())),
        Err(e) => Err(e),
    }
}

/// Records what was learned of a listed worktree: its head message and
/// status when both were read; `(unreadable)` as message when only the
/// status was; and `(unreadable)` with the status marked stale when the
/// status could not be read.
pub fn apply_details(wt: &mut WorktreeInfo, head_msg: Option<String>, status: Option<WorktreeStatus>)
    ensures
        final(wt).path == old(wt).path,
        final(wt).name == old(wt).name,
        final(wt).branch == old(wt).branch,
        final(wt).head_hash == old(wt).head_hash,
        match (head_msg, status) {
            (Some(m), Some(s)) => final(wt).head_msg@ == m@ && final(wt).status == s,
            (None, Some(s)) => final(wt).head_msg@ == "(unreadable)"@ && final(wt).status == s,
            (_, None) => final(wt).head_msg@ == "(unreadable)"@ && final(wt).status == (WorktreeStatus {
                is_stale: true,
                ..old(wt).status
            }),
        },
{
    match (head_msg, status) {
        (Some(m), Some(s)) => {
            wt.head_msg = m;
            wt.status = s;
        },
        (None, Some(s)) => {
            wt.head_msg = string_of(&chars_of("(unreadable)"));
            wt.status = s;
        },
        (_, None) => {
            wt.head_msg = string_of(&chars_of("(unreadable)"));
            wt.status.is_stale = true;
        },
    }
}

/// The admin directory of a relative stale entry: `<repo>/.git/<entry>`.
pub open spec fn admin_dir(entry: Seq<char>, repo_root: Seq<char>) -> Seq<char> {
    join(join(repo_root, ".git"@), entry)
}

/// The admin directory of a stale entry, whose `gitdir` file points at the
/// missing worktree.
pub fn stale_admin_dir(entry: &str, repo_root: &str) -> (r: String)
    ensures
        r@ == admin_dir(entry@, repo_root@),
{
    let git = path_join(&chars_of(repo_root), &chars_of(".git"));
    string_of(&path_join(&git, &chars_of(entry)))
}

/// The `gitdir` file inside an admin directory.
pub fn gitdir_file(admin: &str) -> (r: String)
    ensures
        r@ == join(admin@, "gitdir"@),
{
    string_of(&path_join(&chars_of(admin), &chars_of("gitdir")))
}

/// The worktree path that a stale entry stands for: an absolute entry is the
/// path itself; a relative admin entry resolves to the parent of the `.git`
/// file named in its `gitdir` file (`gitdir` holds that file's contents, none
/// when it could not be read); when unread, the admin directory if it
/// exists, else the entry under the repository root.
pub open spec fn stale_path(
    entry: Seq<char>,
    repo_root: Seq<char>,
    gitdir: Option<Seq<char>>,
    admin_exists: bool,
) -> Result<Seq<char>, Seq<char>> {
    if is_absolute(entry) {
        Ok(entry)
    } else {
        match gitdir {
            None => Ok(
                if admin_exists {
                    admin_dir(entry, repo_root)
                } else {
                    join(repo_root, entry)
                },
            ),
            Some(contents) => match parent(trim(contents)) {
                Some(p) => Ok(p),
                None => Err("cannot determine worktree root from `"@ + trim(contents) + "`"@),
            },
        }
    }
}

/// Resolves a stale entry from `parse_prune_dry_run` to a worktree path.
pub fn resolve_stale_path(entry: &str, repo_root: &str, gitdir: Option<&str>, admin_exists: bool) -> (r:
    Result<String, AppError>)
    ensures
        match stale_path(
            entry@,
            repo_root@,
            match gitdir {
                Some(g) => Some(g@),
                None => None,
            },
            admin_exists,
        ) {
            Ok(p) => r matches Ok(s) && s@ == p,
            Err(m) => r matches Err(AppError::GitError { message }) && message@ == m,
        },
{
    let e = chars_of(entry);
    if e.len() > 0 && e[0] == '/' {
        return Ok(string_of(&e));
    }
    match gitdir {
        None => {
            if admin_exists {
                Ok(stale_admin_dir(entry, repo_root))
            } else {
                Ok(string_of(&path_join(&chars_of(repo_root), &e)))
            }
        },
        Some(contents) => {
            let file = trim_chars(&chars_of(contents));
            match path_parent(&file) {
                Some(p) => Ok(string_of(&p)),
                None => {
                    let mut m = chars_of("cannot determine worktree root from `");
                    append_chars(&mut m, &file);
                    append_chars(&mut m, &chars_of("`"));
                    Err(AppError::GitError { message: string_of(&m) })
                },
            }
        },
    }
}

/// The `gitdir` contents recorded for entry `i`, none past the end.
pub open spec fn gitdir_at(gitdirs: Seq<Option<String>>, i: int) -> Option<Seq<char>> {
    if 0 <= i < gitdirs.len() {
        crate::models::opt_view(gitdirs[i])
    } else {
        None
    }
}

/// Whether the admin directory of entry `i` exists, false past the end.
pub open spec fn admin_at(admins: Seq<bool>, i: int) -> bool {
    0 <= i < admins.len() && admins[i]
}

/// The worktree path that stale entry `i` stands for.
pub open spec fn stale_path_at(
    entries: Seq<String>,
    repo_root: Seq<char>,
    gitdirs: Seq<Option<String>>,
    admins: Seq<bool>,
    i: int,
) -> Result<Seq<char>, Seq<char>> {
    stale_path(entries[i]@, repo_root, gitdir_at(gitdirs, i), admin_at(admins, i))
}

/// Resolves the stale entries in order, `gitdirs[i]` holding the contents of
/// entry `i`'s `gitdir` file (none when unread) and `admins[i]` whether its
/// admin directory exists: all paths when every entry resolves, else the
/// error of the first that does not.
pub fn resolve_stale_paths(
    entries: &Vec<String>,
    repo_root: &str,
    gitdirs: &Vec<Option<String>>,
    admins: &Vec<bool>,
) -> (r: Result<Vec<String>, AppError>)
    ensures
        match r {
            Ok(l) => l@.len() == entries@.len() && forall|i: int|
                0 <= i < entries@.len() ==> stale_path_at(entries@, repo_root@, gitdirs@, admins@, i)
                    == Ok::<Seq<char>, Seq<char>>(#[trigger] l@[i]@),
            Err(e) => exists|k: int|
                #![trigger stale_path_at(entries@, repo_root@, gitdirs@, admins@, k)]
                0 <= k < entries@.len() && (forall|j: int|
                    0 <= j < k ==> #[trigger] stale_path_at(entries@, repo_root@, gitdirs@, admins@, j)
                        is Ok) && (stale_path_at(entries@, repo_root@, gitdirs@, admins@, k) matches Err(
                    m,
                ) && e matches AppError::GitError { message } && message@ == m),
        },
        (forall|i: int|
            0 <= i < entries@.len() ==> #[trigger] stale_path_at(entries@, repo_root@, gitdirs@, admins@, i)
                is Ok) ==> r is Ok,
{
    let mut out: Vec<String> = Vec::new();
    let mut i: usize = 0;
    while i < entries.len()
        invariant
            i <= entries@.len(),
            out@.len() == i,
            forall|j: int|
                0 <= j < i ==> stale_path_at(entries@, repo_root@, gitdirs@, admins@, j) == Ok::<
                    Seq<char>,
                    Seq<char>,
                >(#[trigger] out@[j]@),
        decreases entries@.len() - i,
    {
        let gitdir: Option<&str> = if i < gitdirs.len() {
            match &gitdirs[i] {
                Some(g) => Some(g.as_str()),
                None => None,
            }
        } else {
            None
        };
        let admin = i < admins.len() && admins[i];
        assert(opt_str_view(gitdir) == gitdir_at(gitdirs@, i as int));
        assert(admin == admin_at(admins@, i as int));
        let ghost here = stale_path_at(entries@, repo_root@, gitdirs@, admins@, i as int);
        assert(here == stale_path(
            entries@[i as int]@,
            repo_root@,
            match gitdir {
                Some(g) => Some(g@),
                None => None,
            },
            admin,
        ));
        match resolve_stale_path(entries[i].as_str(), repo_root, gitdir, admin) {
            Ok(p) => {
                out.push(p);
            },
            Err(e) => {
                proof {
                    assert forall|j: int| 0 <= j < i implies #[trigger] stale_path_at(
                        entries@,
                        repo_root@,
                        gitdirs@,
                        admins@,
                        j,
                    ) is Ok by {
                        assert(stale_path_at(entries@, repo_root@, gitdirs@, admins@, j) == Ok::<
                            Seq<char>,
                            Seq<char>,
                        >(out@[j]@));
                    }
                }
                assert(here is Err);
                return Err(e);
            },
        }
        i += 1;
    }
    Ok(out)
}

} // verus!
