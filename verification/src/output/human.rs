//! The cells of the human-readable worktree table, coloured with ANSI escapes.
use owo_colors::OwoColorize;
use vstd::prelude::*;
use vstd::utf8::{decode_utf8, encode_utf8};
use crate::text::separated;
use crate::models::{WorktreeInfo, WorktreeStatus};
use crate::paths::{path_has_prefix, path_rest, path_starts_with, rest_after};
use crate::text::{append_chars, chars_of, decimal, decimal_chars, string_of};

verus! {

/// `s` in the foreground colour with SGR `code`, reset to the default colour after.
pub open spec fn fg(code: Seq<char>, s: Seq<char>) -> Seq<char> {
    "\x1b["@ + code + "m"@ + s + "\x1b[39m"@
}

/// `s` with the SGR attribute `code`, all attributes reset after.
pub open spec fn styled(code: Seq<char>, s: Seq<char>) -> Seq<char> {
    "\x1b["@ + code + "m"@ + s + "\x1b[0m"@
}

/// Calls `OwoColorize::red` and formats the result: `s` between `ESC[31m`
/// and `ESC[39m`.
#[verifier::external_body]
pub(crate) fn red(s: &str) -> (r: String)
    ensures
        r@ == fg("31"@, s@),
{
    s.red().to_string()
}

/// Calls `OwoColorize::green` and formats the result: `s` between `ESC[32m`
/// and `ESC[39m`.
#[verifier::external_body]
pub(crate) fn green(s: &str) -> (r: String)
    ensures
        r@ == fg("32"@, s@),
{
    s.green().to_string()
}

/// Calls `OwoColorize::yellow` and formats the result: `s` between `ESC[33m`
/// and `ESC[39m`.
#[verifier::external_body]
pub(crate) fn yellow(s: &str) -> (r: String)
    ensures
        r@ == fg("33"@, s@),
{
    s.yellow().to_string()
}

/// Calls `OwoColorize::cyan` and formats the result: `s` between `ESC[36m`
/// and `ESC[39m`.
#[verifier::external_body]
pub(crate) fn cyan(s: &str) -> (r: String)
    ensures
        r@ == fg("36"@, s@),
{
    s.cyan().to_string()
}

/// Calls `OwoColorize::bold` and formats the result: `s` between `ESC[1m`
/// and `ESC[0m`.
#[verifier::external_body]
pub(crate) fn bold(s: &str) -> (r: String)
    ensures
        r@ == styled("1"@, s@),
{
    s.bold().to_string()
}

/// Calls `OwoColorize::dimmed` and formats the result: `s` between `ESC[2m`
/// and `ESC[0m`.
#[verifier::external_body]
pub(crate) fn dimmed(s: &str) -> (r: String)
    ensures
        r@ == styled("2"@, s@),
{
    s.dimmed().to_string()
}

/// The parts of a status cell before colouring.
pub open spec fn status_parts(s: WorktreeStatus) -> Seq<Seq<char>> {
    (if s.is_dirty {
        seq![fg("33"@, "dirty"@)]
    } else {
        seq![fg("32"@, "clean"@)]
    }) + (if s.ahead > 0 {
        seq![fg("32"@, "↑"@ + decimal(s.ahead as nat))]
    } else {
        seq![]
    }) + (if s.behind > 0 {
        seq![fg("31"@, "↓"@ + decimal(s.behind as nat))]
    } else {
        seq![]
    })
}

/// The status cell: a bold red `stale`, or `dirty`/`clean` followed by the
/// ahead and behind counts that are not zero, separated by `, `.
pub open spec fn status_cell(s: WorktreeStatus) -> Seq<char> {
    if s.is_stale {
        styled("1"@, fg("31"@, "stale"@))
    } else {
        separated(status_parts(s), ", "@)
    }
}

/// The status cell of a worktree.
pub fn format_status(wt: &WorktreeInfo) -> (r: String)
    ensures
        r@ == status_cell(wt.status),
{
    let s = wt.status;
    if s.is_stale {
        return bold(red("stale").as_str());
    }
    let mut parts: Vec<String> = Vec::new();
    if s.is_dirty {
        parts.push(yellow("dirty"));
    } else {
        parts.push(green("clean"));
    }
    if s.ahead > 0 {
        let mut t = chars_of("↑");
        append_chars(&mut t, &decimal_chars(s.ahead));
        parts.push(green(string_of(&t).as_str()));
    }
    if s.behind > 0 {
        let mut t = chars_of("↓");
        append_chars(&mut t, &decimal_chars(s.behind));
        parts.push(red(string_of(&t).as_str()));
    }
    assert(crate::text::strings(parts@) =~= status_parts(s));
    string_of(&crate::git::command::join_strings(&parts, ", "))
}

/// `s` with every backslash written as a forward slash.
pub open spec fn forward_slashes(s: Seq<char>) -> Seq<char> {
    s.map_values(|c: char| if c == '\\' { '/' } else { c })
}

/// Reads `std::path::MAIN_SEPARATOR`, the platform's path separator.
#[verifier::external_body]
fn main_separator() -> (r: char) {
    std::path::MAIN_SEPARATOR
}

/// `s` as displayed where `separator` separates path components: backslashes
/// become forward slashes when the separator is a backslash, else `s` stays.
pub fn separators_for(s: &str, separator: char) -> (r: String)
    ensures
        r@ == (if separator == '\\' {
            forward_slashes(s@)
        } else {
            s@
        }),
{
    let chars = chars_of(s);
    if separator != '\\' {
        return string_of(&chars);
    }
    let mut out: Vec<char> = Vec::new();
    let mut i: usize = 0;
    while i < chars.len()
        invariant
            i <= chars.len(),
            out@ == forward_slashes(chars@.take(i as int)),
        decreases chars.len() - i,
    {
        if chars[i] == '\\' {
            out.push('/');
        } else {
            out.push(chars[i]);
        }
        i += 1;
        assert(out@ =~= forward_slashes(chars@.take(i as int)));
    }
    assert(chars@.take(chars@.len() as int) =~= chars@);
    string_of(&out)
}

/// `s` with the platform's separators shown as forward slashes: unchanged
/// where the separator is `/`, backslashes replaced where it is `\`.
pub fn normalize_separators(s: String) -> (r: String)
    ensures
        r@ == s@ || r@ == forward_slashes(s@),
{
    separators_for(s.as_str(), main_separator())
}

/// `path` with a leading home directory written as `~`: `~/` and what
/// `Path::strip_prefix` leaves of the path, when the components of `home`
/// begin it.
pub open spec fn home_shortened(path: Seq<char>, home: Option<Seq<char>>) -> Seq<char> {
    match home {
        Some(h) => if path_starts_with(path, h) {
            "~/"@ + rest_after(path, h)
        } else {
            path
        },
        None => path,
    }
}

/// `path` for display, `home` being the user's home directory when known:
/// shortened to `~/...` below it (compared by whole components, so
/// `/home/developer` is not under `/home/dev`), with separators normalized.
pub fn shorten_home(path: &str, home: Option<&str>) -> (r: String)
    ensures
        r@ == home_shortened(
            path@,
            match home {
                Some(h) => Some(h@),
                None => None,
            },
        ) || r@ == forward_slashes(
            home_shortened(
                path@,
                match home {
                    Some(h) => Some(h@),
                    None => None,
                },
            ),
        ),
{
    match home {
        Some(h) => {
            if path_has_prefix(path, h) {
                let mut t = chars_of("~/");
                append_chars(&mut t, &path_rest(path, h));
                normalize_separators(string_of(&t))
            } else {
                normalize_separators(string_of(&chars_of(path)))
            }
        },
        None => normalize_separators(string_of(&chars_of(path))),
    }
}

/// The path cell of a worktree: its path, shortened below `home`, dimmed.
pub fn format_path(wt: &WorktreeInfo, home: Option<&str>) -> (r: String)
    ensures
        r@ == styled(
            "2"@,
            home_shortened(
                wt.path@,
                match home {
                    Some(h) => Some(h@),
                    None => None,
                },
            ),
        ) || r@ == styled(
            "2"@,
            forward_slashes(
                home_shortened(
                    wt.path@,
                    match home {
                        Some(h) => Some(h@),
                        None => None,
                    },
                ),
            ),
        ),
{
    dimmed(shorten_home(wt.path.as_str(), home).as_str())
}

/// `s` cut to `max` characters, with `…` appended when something was cut.
pub open spec fn truncated(s: Seq<char>, max: nat) -> Seq<char> {
    if s.len() <= max {
        s
    } else {
        s.take(max as int) + "…"@
    }
}

/// `s` cut to at most `max` characters (plus an ellipsis).
pub fn truncate(s: &str, max: usize) -> (r: String)
    ensures
        r@ == truncated(s@, max as nat),
{
    let c = chars_of(s);
    if c.len() <= max {
        string_of(&c)
    } else {
        let mut t = crate::text::slice_chars(&c, 0, max);
        append_chars(&mut t, &chars_of("…"));
        string_of(&t)
    }
}

/// The number of bytes of a hash that the table shows (`str::len` counts
/// them as a `usize`).
pub open spec fn short_len(hash: Seq<char>) -> int {
    let n = (encode_utf8(hash).len() as usize) as int;
    if n < 7 {
        n
    } else {
        7
    }
}

/// The first seven bytes of a hash (all of a shorter one), read as text.
pub open spec fn short_hash(hash: Seq<char>) -> Seq<char> {
    decode_utf8(encode_utf8(hash).take(short_len(hash)))
}

/// Cutting a hash after seven bytes does not split a character.
pub open spec fn hash_cut_ok(hash: Seq<char>) -> bool {
    vstd::utf8::is_char_boundary(encode_utf8(hash), short_len(hash))
}

fn short_hash_of(hash: &str) -> (r: String)
    requires
        hash_cut_ok(hash@),
    ensures
        r@ == short_hash(hash@),
{
    broadcast use vstd::utf8::encode_utf8_decode_utf8;

    let n = hash.len();
    let k = if n < 7 {
        n
    } else {
        7
    };
    let (head, _) = hash.split_at(k);
    assert(encode_utf8(head@) =~= encode_utf8(hash@).take(short_len(hash@)));
    string_of(&chars_of(head))
}

/// The branch cell: the branch in bold cyan, or `HEAD (<short hash>)` dimmed
/// in yellow for a detached HEAD.
pub open spec fn branch_cell(w: crate::models::InfoView) -> Seq<char> {
    match w.branch {
        Some(b) => fg("36"@, styled("1"@, b)),
        None => fg("33"@, styled("2"@, "HEAD ("@ + short_hash(w.head_hash) + ")"@)),
    }
}

/// The branch cell of a worktree.
pub fn format_branch(wt: &WorktreeInfo) -> (r: String)
    requires
        wt.branch is None ==> hash_cut_ok(wt.head_hash@),
    ensures
        r@ == branch_cell(wt@),
{
    match &wt.branch {
        Some(b) => cyan(bold(b.as_str()).as_str()),
        None => {
            let mut t = chars_of("HEAD (");
            append_chars(&mut t, &chars_of(short_hash_of(wt.head_hash.as_str()).as_str()));
            append_chars(&mut t, &chars_of(")"));
            yellow(dimmed(string_of(&t).as_str()).as_str())
        },
    }
}

/// The commit cell: the short hash dimmed, a space, and the head message cut
/// to forty characters.
pub open spec fn commit_cell(w: crate::models::InfoView) -> Seq<char> {
    styled("2"@, short_hash(w.head_hash)) + " "@ + truncated(w.head_msg, 40)
}

/// The commit cell of a worktree.
pub fn format_commit(wt: &WorktreeInfo) -> (r: String)
    requires
        hash_cut_ok(wt.head_hash@),
    ensures
        r@ == commit_cell(wt@),
{
    let mut t = chars_of(dimmed(short_hash_of(wt.head_hash.as_str()).as_str()).as_str());
    append_chars(&mut t, &chars_of(" "));
    append_chars(&mut t, &chars_of(truncate(wt.head_msg.as_str(), 40).as_str()));
    string_of(&t)
}

/// The first cell of a row: a bold cyan `*` for the current worktree.
pub open spec fn marker_cell(current: bool) -> Seq<char> {
    if current {
        fg("36"@, styled("1"@, "*"@))
    } else {
        seq![]
    }
}

/// The path cell of a worktree shown with home directory `home`, for either
/// platform separator.
pub open spec fn is_path_cell(cell: Seq<char>, w: crate::models::InfoView, home: Option<Seq<char>>) -> bool {
    cell == styled("2"@, home_shortened(w.path, home)) || cell == styled(
        "2"@,
        forward_slashes(home_shortened(w.path, home)),
    )
}

/// A table row for worktree `w`: marker, branch, status, path and commit cells.
pub open spec fn is_list_row(
    row: Seq<Seq<char>>,
    w: crate::models::InfoView,
    current: bool,
    home: Option<Seq<char>>,
) -> bool {
    &&& row.len() == 5
    &&& row[0] == marker_cell(current)
    &&& row[1] == branch_cell(w)
    &&& row[2] == status_cell(w.status)
    &&& is_path_cell(row[3], w, home)
    &&& row[4] == commit_cell(w)
}

/// What `wt list` shows: a message when there are no worktrees, else the
/// rows of the table.
#[derive(Debug)]
pub enum ListDisplay {
    Message(String),
    Rows(Vec<Vec<String>>),
}

/// What `wt list` shows for `worktrees`, `current` being the index of the
/// worktree the user stands in and `home` the home directory.
pub fn list_display(worktrees: &Vec<WorktreeInfo>, current: Option<usize>, home: Option<&str>) -> (r:
    ListDisplay)
    requires
        forall|i: int| 0 <= i < worktrees@.len() ==> hash_cut_ok(#[trigger] worktrees@[i].head_hash@),
    ensures
        worktrees@.len() == 0 ==> (r matches ListDisplay::Message(m) && m@ == "No worktrees found."@),
        worktrees@.len() > 0 ==> (r matches ListDisplay::Rows(rows) && rows@.len() == worktrees@.len()
            && forall|i: int|
            0 <= i < rows@.len() ==> is_list_row(
                crate::text::strings(#[trigger] rows@[i]@),
                worktrees@[i]@,
                current == Some(i as usize),
                match home {
                    Some(h) => Some(h@),
                    None => None,
                },
            )),
{
    if worktrees.len() == 0 {
        return ListDisplay::Message(string_of(&chars_of("No worktrees found.")));
    }
    let ghost hv = match home {
        Some(h) => Some(h@),
        None => None,
    };
    let mut rows: Vec<Vec<String>> = Vec::new();
    let mut i: usize = 0;
    while i < worktrees.len()
        invariant
            i <= worktrees@.len(),
            rows@.len() == i,
            hv == match home {
                Some(h) => Some(h@),
                None => None::<Seq<char>>,
            },
            forall|j: int| 0 <= j < worktrees@.len() ==> hash_cut_ok(#[trigger] worktrees@[j].head_hash@),
            forall|j: int|
                0 <= j < i ==> is_list_row(
                    crate::text::strings(#[trigger] rows@[j]@),
                    worktrees@[j]@,
                    current == Some(j as usize),
                    hv,
                ),
        decreases worktrees@.len() - i,
    {
        let wt = &worktrees[i];
        assert(hash_cut_ok(worktrees@[i as int].head_hash@));
        let is_current = match current {
            Some(k) => k == i,
            None => false,
        };
        let marker = if is_current {
            cyan(bold("*").as_str())
        } else {
            string_of(&Vec::new())
        };
        let mut row: Vec<String> = Vec::new();
        row.push(marker);
        row.push(format_branch(wt));
        row.push(format_status(wt));
        row.push(format_path(wt, home));
        row.push(format_commit(wt));
        assert(crate::text::strings(row@).len() == 5);
        assert(crate::text::strings(row@)[0] =~= marker_cell(is_current));
        rows.push(row);
        i += 1;
    }
    ListDisplay::Rows(rows)
}

} // verus!
