//! Resolving a query to one worktree: by enclosing path, then exact name,
//! branch or path, then a unique case-insensitive substring, then the best
//! fuzzy score.
use fuzzy_matcher::skim::SkimMatcherV2;
use fuzzy_matcher::FuzzyMatcher;
use vstd::prelude::*;
use vstd::utf8::encode_utf8;
use crate::error::AppError;
use crate::models::{opt_view, InfoView, WorktreeInfo};
use crate::paths::{path_has_prefix, path_starts_with};
use crate::text::{chars_of, contains, contains_chars, lowercase, string_of, to_lowercase};
use crate::git::parse::infos;

verus! {

/// The score that `SkimMatcherV2::default().fuzzy_match(choice, pattern)`
/// gives: none when `pattern` does not match `choice`.
pub uninterp spec fn skim_score(choice: Seq<char>, pattern: Seq<char>) -> Option<i64>;

/// Calls `FuzzyMatcher::fuzzy_match` of a default `SkimMatcherV2`; its result
/// is named `skim_score`.
#[verifier::external_body]
fn fuzzy_match(choice: &str, pattern: &str) -> (r: Option<i64>)
    ensures
        r == skim_score(choice@, pattern@),
{
    SkimMatcherV2::default().fuzzy_match(choice, pattern)
}

/// Fuzzy scores below this are too weak to count as a match.
pub const MIN_FUZZY_SCORE: i64 = 40;

/// How a query resolves: to the worktree at an index, to none, or to several.
#[derive(PartialEq, Eq, Structural)]
pub enum Resolution {
    Found(usize),
    NotFound,
    Ambiguous,
}

/// `r` is the outcome that `res` calls for, `ws` being the worktrees and `q`
/// the query.
pub open spec fn outcome_is(
    ws: Seq<WorktreeInfo>,
    q: Seq<char>,
    res: Resolution,
    r: Result<WorktreeInfo, AppError>,
) -> bool {
    match res {
        Resolution::Found(i) => r matches Ok(w) && w@ == ws[i as int]@,
        Resolution::NotFound => r matches Err(AppError::WorktreeNotFound { query }) && query@ == q,
        Resolution::Ambiguous => r matches Err(AppError::MultipleWorktreesMatch { query }) && query@
            == q,
    }
}

/// The canonical path recorded for worktree `i`, if any.
pub open spec fn canon_at(canons: Seq<Option<Seq<char>>>, i: int) -> Option<Seq<char>> {
    if 0 <= i < canons.len() {
        canons[i]
    } else {
        None
    }
}

/// Worktree `i` of `n` has a canonical path that begins the query's.
pub open spec fn encloses(n: int, canons: Seq<Option<Seq<char>>>, q: Seq<char>, i: int) -> bool {
    &&& 0 <= i < n
    &&& canon_at(canons, i) matches Some(c)
    &&& path_starts_with(q, c)
}

/// The length in bytes of worktree `i`'s canonical path, as `str::len`
/// reports it.
pub open spec fn depth(canons: Seq<Option<Seq<char>>>, i: int) -> nat {
    match canon_at(canons, i) {
        Some(c) => (encode_utf8(c).len() as usize) as nat,
        None => 0,
    }
}

/// Worktree `i` encloses the query and is the deepest such: no enclosing
/// worktree is longer, and none before it is as long.
pub open spec fn is_deepest(n: int, canons: Seq<Option<Seq<char>>>, q: Seq<char>, i: int) -> bool {
    &&& encloses(n, canons, q, i)
    &&& forall|j: int| #[trigger]
        encloses(n, canons, q, j) ==> depth(canons, j) <= depth(canons, i)
    &&& forall|j: int| 0 <= j < i && #[trigger] encloses(n, canons, q, j) ==> depth(canons, j) < depth(
        canons,
        i,
    )
}

/// The query names the worktree exactly: its name, its branch or its path.
pub open spec fn exact_match(w: InfoView, q: Seq<char>) -> bool {
    w.name == q || w.branch == Some(q) || w.path == q
}

/// Worktree `i` is the first exact match.
pub open spec fn first_exact(ws: Seq<InfoView>, q: Seq<char>, i: int) -> bool {
    0 <= i < ws.len() && exact_match(ws[i], q) && forall|j: int|
        0 <= j < i ==> !exact_match(#[trigger] ws[j], q)
}

/// The lowercased query occurs in the lowercased name or branch.
pub open spec fn substring_match(w: InfoView, lq: Seq<char>) -> bool {
    contains(lowercase(w.name), lq) || (w.branch matches Some(b) && contains(lowercase(b), lq))
}

/// The better of a name's and a branch's fuzzy score.
pub open spec fn better_score(a: Option<i64>, b: Option<i64>) -> Option<i64> {
    match (a, b) {
        (Some(x), Some(y)) => Some(if x >= y { x } else { y }),
        (Some(x), None) => Some(x),
        (None, Some(y)) => Some(y),
        (None, None) => None,
    }
}

/// Score `i` is present and reaches the threshold.
pub open spec fn kept(sc: Seq<Option<i64>>, i: int) -> bool {
    &&& 0 <= i < sc.len()
    &&& sc[i] matches Some(s)
    &&& s >= MIN_FUZZY_SCORE
}

/// Score `i`, 0 when absent.
pub open spec fn score(sc: Seq<Option<i64>>, i: int) -> i64 {
    match sc[i] {
        Some(s) => s,
        None => 0,
    }
}

/// Score `i` is kept and beats every other kept score.
pub open spec fn unique_top(sc: Seq<Option<i64>>, i: int) -> bool {
    kept(sc, i) && forall|j: int| j != i && #[trigger] kept(sc, j) ==> score(sc, j) < score(sc, i)
}

/// The outcome of fuzzy matching with the best scores `sc`: none kept, a
/// unique top score, or a tie at the top.
pub open spec fn fuzzy_resolution(sc: Seq<Option<i64>>) -> Resolution {
    if !(exists|i: int| kept(sc, i)) {
        Resolution::NotFound
    } else if exists|i: int| unique_top(sc, i) {
        Resolution::Found((choose|i: int| unique_top(sc, i)) as usize)
    } else {
        Resolution::Ambiguous
    }
}

/// The best fuzzy score of each worktree against the query.
pub open spec fn best_scores(ws: Seq<InfoView>, q: Seq<char>) -> Seq<Option<i64>> {
    Seq::new(
        ws.len(),
        |i: int|
            better_score(
                skim_score(ws[i].name, q),
                match ws[i].branch {
                    Some(b) => skim_score(b, q),
                    None => None,
                },
            ),
    )
}

/// The score entry `i`, or none past the end.
pub open spec fn score_at(s: Seq<Option<i64>>, i: int) -> Option<i64> {
    if 0 <= i < s.len() {
        s[i]
    } else {
        None
    }
}

/// Worktree `i` is the only one whose name or branch contains `lq`.
pub open spec fn unique_substring(ws: Seq<InfoView>, lq: Seq<char>, i: int) -> bool {
    &&& 0 <= i < ws.len()
    &&& substring_match(ws[i], lq)
    &&& forall|j: int| 0 <= j < ws.len() && j != i ==> !substring_match(#[trigger] ws[j], lq)
}

/// Some worktree's name or branch contains `lq`.
pub open spec fn some_substring(ws: Seq<InfoView>, lq: Seq<char>) -> bool {
    exists|i: int| 0 <= i < ws.len() && substring_match(#[trigger] ws[i], lq)
}

/// How `q` resolves among the worktrees `ws` when matching by name.
pub open spec fn name_resolution(ws: Seq<InfoView>, q: Seq<char>) -> Resolution {
    let lq = lowercase(q);
    if ws.len() == 0 {
        Resolution::NotFound
    } else if exists|i: int| first_exact(ws, q, i) {
        Resolution::Found((choose|i: int| first_exact(ws, q, i)) as usize)
    } else if exists|i: int| unique_substring(ws, lq, i) {
        Resolution::Found((choose|i: int| unique_substring(ws, lq, i)) as usize)
    } else if some_substring(ws, lq) {
        Resolution::Ambiguous
    } else {
        fuzzy_resolution(best_scores(ws, q))
    }
}

/// The worktree found by the query's canonical path `qc` (if it has one):
/// the deepest among the `n` worktrees whose canonical path encloses it.
pub open spec fn path_resolution(n: int, qc: Option<Seq<char>>, canons: Seq<Option<Seq<char>>>) -> Option<usize> {
    match qc {
        Some(c) => if n > 0 && exists|i: int| is_deepest(n, canons, c, i) {
            Some((choose|i: int| is_deepest(n, canons, c, i)) as usize)
        } else {
            None
        },
        None => None,
    }
}

/// How `q` resolves among `ws` when `qc` is the query's canonical path (if
/// it has one) and `canons` the worktrees' canonical paths: the deepest
/// worktree enclosing the query's path wins, else the query is matched by name.
pub open spec fn resolution(
    ws: Seq<InfoView>,
    q: Seq<char>,
    qc: Option<Seq<char>>,
    canons: Seq<Option<Seq<char>>>,
) -> Resolution {
    match path_resolution(ws.len() as int, qc, canons) {
        Some(k) => Resolution::Found(k),
        None => name_resolution(ws, q),
    }
}

/// Picks the worktree with the unique best fuzzy score at or above the
/// threshold; `name_scores[i]` and `branch_scores[i]` are worktree `i`'s
/// scores (missing entries count as no score).
pub fn pick_fuzzy(
    worktrees: &Vec<WorktreeInfo>,
    query: &str,
    name_scores: &Vec<Option<i64>>,
    branch_scores: &Vec<Option<i64>>,
) -> (r: Result<WorktreeInfo, AppError>)
    ensures
        outcome_is(
            worktrees@,
            query@,
            fuzzy_resolution(
                Seq::new(
                    worktrees@.len(),
                    |i: int| better_score(score_at(name_scores@, i), score_at(branch_scores@, i)),
                ),
            ),
            r,
        ),
{
    let ghost sc = Seq::new(
        worktrees@.len(),
        |i: int| better_score(score_at(name_scores@, i), score_at(branch_scores@, i)),
    );
    let mut best: Option<usize> = None;
    let mut best_score: i64 = 0;
    let mut tie = false;
    let ghost mut witness: int = 0;
    let mut i: usize = 0;
    while i < worktrees.len()
        invariant
            i <= worktrees.len(),
            sc.len() == worktrees@.len(),
            sc == Seq::new(
                worktrees@.len(),
                |i: int| better_score(score_at(name_scores@, i), score_at(branch_scores@, i)),
            ),
            best is None <==> forall|j: int| 0 <= j < i ==> !kept(sc, j),
            best matches Some(k) ==> k < i && kept(sc, k as int) && score(sc, k as int)
                == best_score && forall|j: int|
                0 <= j < i && #[trigger] kept(sc, j) ==> score(sc, j) <= best_score,
            best matches Some(k) ==> (tie ==> 0 <= witness < i && witness != k && kept(sc, witness)
                && score(sc, witness) == best_score),
            best matches Some(k) ==> (!tie ==> forall|j: int|
                0 <= j < i && j != k && #[trigger] kept(sc, j) ==> score(sc, j) < best_score),
        decreases worktrees.len() - i,
    {
        let n = if i < name_scores.len() {
            name_scores[i]
        } else {
            None
        };
        let b = if i < branch_scores.len() {
            branch_scores[i]
        } else {
            None
        };
        let s = match (n, b) {
            (Some(x), Some(y)) => Some(if x >= y { x } else { y }),
            (Some(x), None) => Some(x),
            (None, Some(y)) => Some(y),
            (None, None) => None,
        };
        assert(sc[i as int] == s);
        assert(kept(sc, i as int) <==> (s matches Some(v) && v >= MIN_FUZZY_SCORE));
        match s {
            Some(v) => {
                if v >= MIN_FUZZY_SCORE {
                    match best {
                        None => {
                            best = Some(i);
                            best_score = v;
                            tie = false;
                        },
                        Some(k) => {
                            if v > best_score {
                                best = Some(i);
                                best_score = v;
                                tie = false;
                            } else if v == best_score {
                                proof {
                                    witness = i as int;
                                }
                                tie = true;
                            }
                        },
                    }
                }
            },
            None => {},
        }
        i += 1;
    }
    match best {
        None => {
            assert(!(exists|j: int| kept(sc, j)));
            Err(AppError::WorktreeNotFound { query: string_of(&chars_of(query)) })
        },
        Some(k) => {
            if tie {
                proof {
                    let m = witness;
                    assert forall|x: int| !unique_top(sc, x) by {
                        if unique_top(sc, x) {
                            if x == k {
                                assert(kept(sc, m));
                            } else {
                                assert(kept(sc, k as int));
                                if x != m {
                                    assert(kept(sc, m));
                                }
                            }
                        }
                    }
                }
                Err(AppError::MultipleWorktreesMatch { query: string_of(&chars_of(query)) })
            } else {
                proof {
                    assert(unique_top(sc, k as int));
                    let c = choose|x: int| unique_top(sc, x);
                    if c != k {
                        assert(kept(sc, c));
                        assert(kept(sc, k as int));
                    }
                }
                Ok(worktrees[k].duplicate())
            }
        },
    }
}


/// The views of recorded canonical paths.
pub open spec fn canon_views(canons: Seq<Option<String>>) -> Seq<Option<Seq<char>>> {
    canons.map_values(|o: Option<String>| opt_view(o))
}

proof fn lemma_deepest_unique(n: int, canons: Seq<Option<Seq<char>>>, q: Seq<char>, i: int, j: int)
    requires
        is_deepest(n, canons, q, i),
        is_deepest(n, canons, q, j),
    ensures
        i == j,
{
    if i < j {
        assert(encloses(n, canons, q, i));
    } else if j < i {
        assert(encloses(n, canons, q, j));
    }
}

pub(crate) proof fn lemma_path_resolution(n: int, c: Seq<char>, canons: Seq<Option<Seq<char>>>, k: usize)
    requires
        n > 0,
        is_deepest(n, canons, c, k as int),
    ensures
        path_resolution(n, Some(c), canons) == Some(k),
{
    let w = choose|i: int| is_deepest(n, canons, c, i);
    lemma_deepest_unique(n, canons, c, w, k as int);
}

fn deepest_enclosing(n: usize, query_canon: &str, canons: &Vec<Option<String>>) -> (r: Option<
    usize,
>)
    ensures
        match r {
            Some(k) => is_deepest(n as int, canon_views(canons@), query_canon@, k as int),
            None => forall|i: int| !encloses(n as int, canon_views(canons@), query_canon@, i),
        },
{
    let ghost cv = canon_views(canons@);
    let mut best: Option<usize> = None;
    let mut best_len: usize = 0;
    let mut i: usize = 0;
    while i < n
        invariant
            i <= n,
            cv == canon_views(canons@),
            best is None ==> forall|j: int|
                0 <= j < i ==> !(#[trigger] encloses(n as int, cv, query_canon@, j)),
            best matches Some(k) ==> k < i && encloses(n as int, cv, query_canon@, k as int)
                && depth(cv, k as int) == best_len && (forall|j: int|
                0 <= j < i && #[trigger] encloses(n as int, cv, query_canon@, j) ==> depth(cv, j)
                    <= best_len) && (forall|j: int|
                0 <= j < k && #[trigger] encloses(n as int, cv, query_canon@, j) ==> depth(cv, j)
                    < best_len),
        decreases n - i,
    {
        if i < canons.len() {
            match &canons[i] {
                Some(c) => {
                    assert(canon_at(cv, i as int) == Some(c@));
                    if path_has_prefix(query_canon, c.as_str()) {
                        let d = c.as_str().len();
                        assert(depth(cv, i as int) == d);
                        match best {
                            None => {
                                best = Some(i);
                                best_len = d;
                            },
                            Some(k) => {
                                if d > best_len {
                                    best = Some(i);
                                    best_len = d;
                                }
                            },
                        }
                    } else {
                        assert(!encloses(n as int, cv, query_canon@, i as int));
                    }
                },
                None => {
                    assert(!encloses(n as int, cv, query_canon@, i as int));
                },
            }
        } else {
            assert(!encloses(n as int, cv, query_canon@, i as int));
        }
        i += 1;
    }
    best
}

proof fn lemma_first_exact_unique(ws: Seq<InfoView>, q: Seq<char>, i: int, j: int)
    requires
        first_exact(ws, q, i),
        first_exact(ws, q, j),
    ensures
        i == j,
{
    if i < j {
        assert(exact_match(ws[i], q));
    } else if j < i {
        assert(exact_match(ws[j], q));
    }
}

fn same_text(a: &str, b: &str) -> (r: bool)
    ensures
        r == (a@ == b@),
{
    crate::text::chars_eq(&chars_of(a), &chars_of(b))
}

fn find_exact(worktrees: &Vec<WorktreeInfo>, query: &str) -> (r: Option<usize>)
    ensures
        match r {
            Some(k) => first_exact(infos(worktrees@), query@, k as int),
            None => forall|i: int| 0 <= i < worktrees@.len() ==> !exact_match(#[trigger] infos(worktrees@)[i], query@),
        },
{
    let ghost ws = infos(worktrees@);
    let mut i: usize = 0;
    while i < worktrees.len()
        invariant
            i <= worktrees.len(),
            ws == infos(worktrees@),
            forall|j: int| 0 <= j < i ==> !exact_match(#[trigger] ws[j], query@),
        decreases worktrees.len() - i,
    {
        let w = &worktrees[i];
        assert(ws[i as int] == w@);
        let by_branch = match &w.branch {
            Some(b) => same_text(b.as_str(), query),
            None => false,
        };
        if same_text(w.name.as_str(), query) || by_branch || same_text(w.path.as_str(), query) {
            return Some(i);
        }
        i += 1;
    }
    None
}

fn lower_chars(s: &str) -> (r: Vec<char>)
    ensures
        r@ == lowercase(s@),
{
    chars_of(to_lowercase(s).as_str())
}

fn is_substring_match(w: &WorktreeInfo, lq: &Vec<char>) -> (r: bool)
    ensures
        r == substring_match(w@, lq@),
{
    if contains_chars(&lower_chars(w.name.as_str()), lq) {
        return true;
    }
    match &w.branch {
        Some(b) => contains_chars(&lower_chars(b.as_str()), lq),
        None => false,
    }
}

/// The first worktree whose name or branch contains `lq` (lowercased), and
/// whether another one does too.
fn find_substring(worktrees: &Vec<WorktreeInfo>, lq: &Vec<char>) -> (r: (Option<usize>, bool))
    ensures
        r.0 is None ==> forall|j: int|
            0 <= j < worktrees@.len() ==> !substring_match(#[trigger] infos(worktrees@)[j], lq@),
        r.0 matches Some(k) ==> k < worktrees@.len() && substring_match(
            infos(worktrees@)[k as int],
            lq@,
        ),
        r.0 matches Some(k) ==> (!r.1 <==> forall|j: int|
            0 <= j < worktrees@.len() && j != k ==> !substring_match(
                #[trigger] infos(worktrees@)[j],
                lq@,
            )),
{
    let ghost ws = infos(worktrees@);
    let mut first: Option<usize> = None;
    let mut multiple = false;
    let ghost mut witness: int = 0;
    let mut i: usize = 0;
    while i < worktrees.len()
        invariant
            i <= worktrees.len(),
            ws == infos(worktrees@),
            first is None ==> !multiple,
            first is None <==> forall|j: int|
                0 <= j < i ==> !substring_match(#[trigger] ws[j], lq@),
            first matches Some(k) ==> k < i && substring_match(ws[k as int], lq@),
            first matches Some(k) ==> (multiple ==> k < witness < i && substring_match(
                ws[witness],
                lq@,
            )),
            first matches Some(k) ==> (!multiple ==> forall|j: int|
                0 <= j < i && j != k ==> !substring_match(#[trigger] ws[j], lq@)),
        decreases worktrees.len() - i,
    {
        assert(ws[i as int] == worktrees@[i as int]@);
        if is_substring_match(&worktrees[i], lq) {
            match first {
                None => {
                    first = Some(i);
                },
                Some(k) => {
                    if !multiple {
                        proof {
                            witness = i as int;
                        }
                    }
                    multiple = true;
                },
            }
        }
        i += 1;
    }
    proof {
        if let Some(k) = first {
            if multiple {
                assert(substring_match(ws[witness], lq@));
            }
        }
    }
    (first, multiple)
}

/// The fuzzy scores of every worktree's name and branch against `query`.
fn fuzzy_scores(worktrees: &Vec<WorktreeInfo>, query: &str) -> (r: (
    Vec<Option<i64>>,
    Vec<Option<i64>>,
))
    ensures
        r.0@.len() == worktrees@.len(),
        r.1@.len() == worktrees@.len(),
        forall|j: int|
            0 <= j < worktrees@.len() ==> r.0@[j] == skim_score(
                #[trigger] infos(worktrees@)[j].name,
                query@,
            ),
        forall|j: int|
            0 <= j < worktrees@.len() ==> r.1@[j] == match #[trigger] infos(worktrees@)[j].branch {
                Some(b) => skim_score(b, query@),
                None => None,
            },
{
    let ghost ws = infos(worktrees@);
    let mut name_scores: Vec<Option<i64>> = Vec::new();
    let mut branch_scores: Vec<Option<i64>> = Vec::new();
    let mut i: usize = 0;
    while i < worktrees.len()
        invariant
            i <= worktrees.len(),
            ws == infos(worktrees@),
            name_scores@.len() == i,
            branch_scores@.len() == i,
            forall|j: int|
                0 <= j < i ==> name_scores@[j] == skim_score(#[trigger] ws[j].name, query@),
            forall|j: int|
                0 <= j < i ==> branch_scores@[j] == match #[trigger] ws[j].branch {
                    Some(b) => skim_score(b, query@),
                    None => None,
                },
        decreases worktrees.len() - i,
    {
        let w = &worktrees[i];
        assert(ws[i as int] == w@);
        name_scores.push(fuzzy_match(w.name.as_str(), query));
        let bs = match &w.branch {
            Some(b) => fuzzy_match(b.as_str(), query),
            None => None,
        };
        branch_scores.push(bs);
        i += 1;
    }
    (name_scores, branch_scores)
}

/// Resolves `query` among `worktrees` by name: an exact name, branch or path
/// match first, then a unique case-insensitive substring of a name or
/// branch, then the unique best fuzzy score at or above the threshold.
pub fn resolve_from_worktrees(worktrees: &Vec<WorktreeInfo>, query: &str) -> (r: Result<
    WorktreeInfo,
    AppError,
>)
    ensures
        outcome_is(worktrees@, query@, name_resolution(infos(worktrees@), query@), r),
{
    let ghost ws = infos(worktrees@);
    if worktrees.len() == 0 {
        return Err(AppError::WorktreeNotFound { query: string_of(&chars_of(query)) });
    }
    match find_exact(worktrees, query) {
        Some(k) => {
            proof {
                let c = choose|i: int| first_exact(ws, query@, i);
                lemma_first_exact_unique(ws, query@, c, k as int);
            }
            return Ok(worktrees[k].duplicate());
        },
        None => {
            assert(!exists|i: int| first_exact(ws, query@, i)) by {
                if exists|i: int| first_exact(ws, query@, i) {
                    let c = choose|i: int| first_exact(ws, query@, i);
                    assert(exact_match(ws[c], query@));
                }
            }
        },
    }
    let lq = lower_chars(query);
    let (first, multiple) = find_substring(worktrees, &lq);
    match first {
        Some(k) => {
            if !multiple {
                proof {
                    assert(unique_substring(ws, lq@, k as int));
                    let c = choose|i: int| unique_substring(ws, lq@, i);
                    if c != k {
                        assert(substring_match(ws[k as int], lq@));
                    }
                }
                return Ok(worktrees[k].duplicate());
            } else {
                assert(substring_match(ws[k as int], lq@));
                assert(!exists|i: int| unique_substring(ws, lq@, i)) by {
                    if exists|i: int| unique_substring(ws, lq@, i) {
                        let c = choose|i: int| unique_substring(ws, lq@, i);
                        if c != k {
                            assert(substring_match(ws[k as int], lq@));
                        } else {
                            let m = choose|j: int|
                                0 <= j < ws.len() && j != k && substring_match(ws[j], lq@);
                            assert(substring_match(ws[m], lq@));
                        }
                    }
                }
                return Err(AppError::MultipleWorktreesMatch { query: string_of(&chars_of(query)) });
            }
        },
        None => {},
    }
    let (name_scores, branch_scores) = fuzzy_scores(worktrees, query);
    assert(Seq::new(
        worktrees@.len(),
        |i: int| better_score(score_at(name_scores@, i), score_at(branch_scores@, i)),
    ) =~= best_scores(ws, query@));
    pick_fuzzy(worktrees, query, &name_scores, &branch_scores)
}

/// Resolves `query` among `worktrees`, where `query_canon` is the query's
/// canonical path when it names an existing path and `canon_paths[i]` that of
/// worktree `i` (when known): the deepest worktree whose path encloses the
/// query's path wins, else the query is matched by name.
pub fn resolve_from_worktrees_with_paths(
    worktrees: &Vec<WorktreeInfo>,
    query: &str,
    query_canon: Option<&str>,
    canon_paths: &Vec<Option<String>>,
) -> (r: Result<WorktreeInfo, AppError>)
    ensures
        outcome_is(
            worktrees@,
            query@,
            resolution(
                infos(worktrees@),
                query@,
                match query_canon {
                    Some(c) => Some(c@),
                    None => None,
                },
                canon_views(canon_paths@),
            ),
            r,
        ),
{
    let ghost ws = infos(worktrees@);
    let ghost cv = canon_views(canon_paths@);
    match query_canon {
        Some(qc) => {
            if worktrees.len() > 0 {
                match deepest_enclosing(worktrees.len(), qc, canon_paths) {
                    Some(k) => {
                        proof {
                            assert(ws.len() == worktrees@.len());
                            assert(is_deepest(ws.len() as int, cv, qc@, k as int));
                            lemma_path_resolution(ws.len() as int, qc@, cv, k);
                        }
                        return Ok(worktrees[k].duplicate());
                    },
                    None => {
                        assert(!exists|i: int| is_deepest(ws.len() as int, cv, qc@, i));
                        assert(path_resolution(ws.len() as int, Some(qc@), cv) is None);
                    },
                }
            }
        },
        None => {},
    }
    resolve_from_worktrees(worktrees, query)
}

} // verus!
