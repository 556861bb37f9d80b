//! Properties that hold across the library's functions.
use vstd::prelude::*;
use crate::cmd::add::{
    add_dialogue, add_transition, first_on_branch, has_commit, not_bare, not_checked_out,
    stage_rank, AddAction, AddEvent, AddStage, AddView,
};
use crate::cmd::list::{is_listing_order, listed_before, main_at};
use crate::git::parse::{
    block_worktree, infos, line_key, line_value, parsed_worktrees, prune_entries, prune_entry,
    record_line, safe_path_char, sanitized, scan_blocks,
};
use crate::git::resolve::{
    best_scores, encloses, first_exact, is_deepest, kept, name_resolution, outcome_is,
    path_resolution, resolution, unique_substring, unique_top, Resolution,
};
use crate::error::AppError;
use crate::models::WorktreeInfo;
use crate::cmd::remove::{carries_out, remove_step, removal_outcome, RemoveAction, RemoveCheck};
use crate::git::command::CommandStatus;
use crate::git::probe::{asks, ProbeAction, ProbeStep};
use crate::text::strings;
use crate::models::{clean_status, status_is_clean, status_text, InfoView, WorktreeStatus};
use crate::paths::is_within;
use crate::git::command::combined;
use crate::git::parse::rev_list_counts;
use crate::text::{
    contains, decimal, is_space, occurs_at, trim, lemma_decimal_is_word, lemma_parse_decimal, lemma_words_from_append, lines,
    alphanumeric, lemma_index_of_is, lines_from, lowercase, strip_cr, words, words_from,
};

verus! {

/// Sanitizing keeps the length, leaves safe characters alone, yields only
/// safe characters, and changes nothing the second time.
pub proof fn lemma_sanitize(branch: Seq<char>)
    ensures
        sanitized(branch).len() == branch.len(),
        forall|i: int| 0 <= i < branch.len() && safe_path_char(branch[i]) ==> #[trigger] sanitized(branch)[i] == branch[i],
        forall|i: int| 0 <= i < branch.len() ==> safe_path_char(#[trigger] sanitized(branch)[i]),
        sanitized(sanitized(branch)) == sanitized(branch),
{
    assert(sanitized(sanitized(branch)) =~= sanitized(branch));
}

/// A status reads `clean` exactly when it has no changes and is in step
/// with its upstream.
pub proof fn lemma_status_text_clean(s: WorktreeStatus)
    ensures
        (status_text(s) == "clean"@) <==> status_is_clean(s),
{
    reveal_strlit("clean");
    reveal_strlit("dirty");
    reveal_strlit("ahead ");
    reveal_strlit("behind ");
    reveal_strlit("dirty, ahead ");
    reveal_strlit("dirty, behind ");
    if !status_is_clean(s) {
        let t = status_text(s);
        assert(t.len() > 0 && t[0] != 'c');
        assert("clean"@[0] == 'c');
    }
}

/// The status of a worktree that has nothing to report is clean.
pub proof fn lemma_clean_status_is_clean()
    ensures
        status_is_clean(clean_status()),
        status_text(clean_status()) == "clean"@,
{
}

/// When some worktree is the main one, `wt list` shows a main worktree first.
pub proof fn lemma_main_listed_first(ws: Seq<InfoView>, mains: Seq<bool>, ord: Seq<usize>, j: usize)
    requires
        is_listing_order(ws, mains, ord),
        j < ws.len(),
        main_at(mains, j as int),
    ensures
        main_at(mains, ord[0] as int),
{
    assert(ord.contains(j));
    let b = choose|b: int| 0 <= b < ord.len() && ord[b] == j;
    if b > 0 {
        assert(listed_before(ws, mains, ord[0] as int, ord[b] as int));
    } else {
        assert(ord[0] == j);
    }
}

/// A path lies within itself exactly when it is not empty; nothing lies
/// within the empty path.
pub proof fn lemma_within_itself(p: Seq<char>)
    ensures
        is_within(p, p) <==> p.len() > 0,
        !is_within(p, seq![]),
{
}

/// Every worktree read from porcelain output starts with a clean status and
/// no head message, and is named after its branch when it has one.
pub proof fn lemma_parsed_worktrees(raw: Seq<char>)
    ensures
        forall|i: int| 0 <= i < parsed_worktrees(raw).len() ==> {
            let w = #[trigger] parsed_worktrees(raw)[i];
            &&& w.status == clean_status()
            &&& w.head_msg.len() == 0
            &&& (w.branch matches Some(b) ==> w.name == b)
        },
{
    let ls = lines(raw);
    lemma_scan_blocks(ls);
    let (done, cur) = scan_blocks(ls);
    let all = parsed_worktrees(raw);
    assert forall|i: int| 0 <= i < all.len() implies {
        let w = #[trigger] all[i];
        &&& w.status == clean_status()
        &&& w.head_msg.len() == 0
        &&& (w.branch matches Some(b) ==> w.name == b)
    } by {
        if i >= done.len() {
            assert(all[i] == block_worktree(cur).unwrap());
        } else {
            assert(all[i] == done[i]);
        }
    }
}

proof fn lemma_scan_blocks(ls: Seq<Seq<char>>)
    ensures
        forall|i: int| 0 <= i < scan_blocks(ls).0.len() ==> {
            let w = #[trigger] scan_blocks(ls).0[i];
            &&& w.status == clean_status()
            &&& w.head_msg.len() == 0
            &&& (w.branch matches Some(b) ==> w.name == b)
        },
    decreases ls.len(),
{
    if ls.len() > 0 {
        lemma_scan_blocks(ls.drop_last());
        let (d, b) = scan_blocks(ls.drop_last());
        assert forall|i: int| 0 <= i < scan_blocks(ls).0.len() implies {
            let w = #[trigger] scan_blocks(ls).0[i];
            &&& w.status == clean_status()
            &&& w.head_msg.len() == 0
            &&& (w.branch matches Some(b) ==> w.name == b)
        } by {
            if i < d.len() {
                assert(scan_blocks(ls).0[i] == d[i]);
            }
        }
    }
}

/// Every stale entry read from `git worktree prune` output is non-empty.
pub proof fn lemma_prune_entries_nonempty(ls: Seq<Seq<char>>)
    ensures
        forall|i: int| 0 <= i < prune_entries(ls).len() ==> (#[trigger] prune_entries(ls)[i]).len() > 0,
    decreases ls.len(),
{
    if ls.len() > 0 {
        lemma_prune_entries_nonempty(ls.drop_last());
        let prev = prune_entries(ls.drop_last());
        let all = prune_entries(ls);
        assert forall|i: int| 0 <= i < all.len() implies (#[trigger] all[i]).len() > 0 by {
            if i < prev.len() {
                assert(all[i] == prev[i]);
            } else {
                let e = prune_entry(ls.last());
                assert(e is Some);
                assert(all[i] == e.unwrap());
            }
        }
    }
}

/// When the query equals some worktree's name, branch or path (and does not
/// name an enclosing path), the first such worktree is the one resolved.
pub proof fn lemma_exact_match_wins(ws: Seq<InfoView>, q: Seq<char>, i: int)
    requires
        first_exact(ws, q, i),
    ensures
        name_resolution(ws, q) == Resolution::Found(i as usize),
{
    let c = choose|k: int| first_exact(ws, q, k);
    if c < i {
        assert(crate::git::resolve::exact_match(ws[c], q));
    } else if i < c {
        assert(crate::git::resolve::exact_match(ws[i], q));
    }
}

/// When the query names a path inside one or more worktrees, the deepest of
/// them is resolved, whatever their names and branches say.
pub proof fn lemma_enclosing_path_wins(
    ws: Seq<InfoView>,
    q: Seq<char>,
    c: Seq<char>,
    canons: Seq<Option<Seq<char>>>,
    k: usize,
)
    requires
        is_deepest(ws.len() as int, canons, c, k as int),
    ensures
        resolution(ws, q, Some(c), canons) == Resolution::Found(k),
{
    crate::git::resolve::lemma_path_resolution(ws.len() as int, c, canons, k);
}

/// A query resolves, when it resolves, to one of the listed worktrees.
pub proof fn lemma_resolution_in_range(
    ws: Seq<InfoView>,
    q: Seq<char>,
    qc: Option<Seq<char>>,
    canons: Seq<Option<Seq<char>>>,
)
    ensures
        resolution(ws, q, qc, canons) matches Resolution::Found(k) ==> k < ws.len(),
{
    if let Some(c) = qc {
        if ws.len() > 0 && exists|i: int| is_deepest(ws.len() as int, canons, c, i) {
            let k = choose|i: int| is_deepest(ws.len() as int, canons, c, i);
            assert(0 <= k < ws.len());
            return;
        }
    }
    let lq = lowercase(q);
    if ws.len() == 0 {
    } else if exists|i: int| first_exact(ws, q, i) {
        let k = choose|i: int| first_exact(ws, q, i);
        assert(0 <= k < ws.len());
    } else if exists|i: int| unique_substring(ws, lq, i) {
        let k = choose|i: int| unique_substring(ws, lq, i);
        assert(0 <= k < ws.len());
    } else {
        let sc = best_scores(ws, q);
        if exists|i: int| unique_top(sc, i) {
            let k = choose|i: int| unique_top(sc, i);
            assert(kept(sc, k));
            assert(0 <= k < ws.len());
        }
    }
}

/// The counts that `git rev-list --left-right --count` prints, the ahead
/// count, a tab and the behind count (with or without a final line break),
/// are read back as they were printed.
pub proof fn lemma_rev_list_counts_read_back(ahead: u32, behind: u32)
    ensures
        rev_list_counts(decimal(ahead as nat) + "\t"@ + decimal(behind as nat)) == (ahead, behind),
        rev_list_counts(decimal(ahead as nat) + "\t"@ + decimal(behind as nat) + "\n"@) == (
            ahead,
            behind,
        ),
{
    let a = decimal(ahead as nat);
    let b = decimal(behind as nat);
    lemma_decimal_is_word(ahead as nat);
    lemma_decimal_is_word(behind as nat);
    lemma_parse_decimal(ahead);
    lemma_parse_decimal(behind);
    let tab: Seq<char> = "\t"@;
    let nl: Seq<char> = "\n"@;
    assert(tab.len() == 1 && tab[0] == '\t') by {
        reveal_strlit("\t");
    }
    assert(nl.len() == 1 && nl[0] == '\n') by {
        reveal_strlit("\n");
    }
    assert(is_space('\t') && is_space('\n'));
    assert forall|rest: Seq<char>|
        (rest == Seq::<char>::empty() || rest == nl) implies words(a + tab + b + rest) == seq![a, b] by {
        assert(a + tab + b + rest =~= a + (tab + b + rest));
        lemma_words_from_append(a, tab + b + rest, seq![]);
        assert(Seq::<char>::empty() + a =~= a);
        let t = tab + b + rest;
        assert(t[0] == '\t');
        assert(t.drop_first() =~= b + rest);
        assert(words_from(t, a) == seq![a] + words_from(b + rest, seq![]));
        lemma_words_from_append(b, rest, seq![]);
        assert(Seq::<char>::empty() + b =~= b);
        if rest == nl {
            assert(rest[0] == '\n');
            assert(rest.drop_first() =~= Seq::<char>::empty());
            assert(words_from(rest, b) == seq![b] + words_from(seq![], seq![]));
        }
        assert(words_from(rest, b) =~= seq![b]);
        assert(seq![a] + seq![b] =~= seq![a, b]);
    }
    assert(a + tab + b + Seq::<char>::empty() =~= a + tab + b);
    assert(words(a + tab + b + Seq::<char>::empty()) == seq![a, b]);
    assert(words(a + tab + b + nl) == seq![a, b]);
}

/// Combining a command's two output streams loses nothing: the trimmed
/// text of each stream occurs in the result, standard output at its start
/// and standard error at its end.
pub proof fn lemma_combined_keeps_both(stdout: Seq<char>, stderr: Seq<char>)
    ensures
        occurs_at(combined(stdout, stderr), trim(stdout), 0),
        occurs_at(
            combined(stdout, stderr),
            trim(stderr),
            combined(stdout, stderr).len() - trim(stderr).len(),
        ),
        contains(combined(stdout, stderr), trim(stdout)),
        contains(combined(stdout, stderr), trim(stderr)),
{
    let c = combined(stdout, stderr);
    let e: Seq<char> = seq![];
    assert(trim(e) == e);
    if stdout.len() == 0 {
        assert(stdout =~= e);
    }
    if stderr.len() == 0 {
        assert(stderr =~= e);
    }
    assert(c.subrange(0, trim(stdout).len() as int) =~= trim(stdout));
    assert(c.subrange(c.len() - trim(stderr).len(), c.len() as int) =~= trim(stderr));
    assert(occurs_at(c, trim(stdout), 0));
    assert(occurs_at(c, trim(stderr), c.len() - trim(stderr).len()));
}

/// What the dialogue has established on reaching step `k`.
spec fn add_facts(ss: Seq<AddView>, evs: Seq<AddEvent>, k: int) -> bool {
    let s = ss[k];
    &&& s.name == ss[0].name
    &&& s.base == ss[0].base
    &&& s.track == ss[0].track
    &&& stage_rank(s.stage) > 1 ==> exists|j: int|
        0 <= j < k && ss[j].stage == AddStage::Bare && #[trigger] not_bare(evs[j])
    &&& stage_rank(s.stage) > 2 ==> exists|j: int|
        0 <= j < k && ss[j].stage == AddStage::Commits && #[trigger] has_commit(evs[j])
    &&& stage_rank(s.stage) > 4 ==> exists|j: int|
        0 <= j < k && ss[j].stage == AddStage::Target && #[trigger] evs[j] == AddEvent::Flag(false)
            && ss[j].target == s.target
    &&& stage_rank(s.stage) > 6 && s.branch_exists ==> s.base is None && s.track is None
    &&& stage_rank(s.stage) > 7 && s.branch_exists ==> exists|j: int|
        0 <= j < k && ss[j].stage == AddStage::CheckedOut && #[trigger] not_checked_out(
            evs[j],
            s.name,
        )
}

/// When some worktree is on branch `name`, a first one is.
proof fn lemma_first_on_branch(ws: Seq<InfoView>, name: Seq<char>, i: int)
    requires
        0 <= i < ws.len(),
        ws[i].branch == Some(name),
    ensures
        exists|k: int| first_on_branch(ws, name, k),
    decreases i,
{
    if exists|j: int| 0 <= j < i && (#[trigger] ws[j]).branch == Some(name) {
        let j = choose|j: int| 0 <= j < i && (#[trigger] ws[j]).branch == Some(name);
        lemma_first_on_branch(ws, name, j);
    } else {
        assert(first_on_branch(ws, name, i));
    }
}

proof fn lemma_add_facts(ss: Seq<AddView>, evs: Seq<AddEvent>, acts: Seq<AddAction>, k: int)
    requires
        add_dialogue(ss, evs, acts),
        ss[0].stage == AddStage::MainRoot,
        0 <= k < acts.len(),
    ensures
        add_facts(ss, evs, k),
    decreases k,
{
    if k > 0 {
        lemma_add_facts(ss, evs, acts, k - 1);
        let p = ss[k - 1];
        let s = ss[k];
        let ev = evs[k - 1];
        assert(add_transition(p, ev, s, acts[k - 1]));
        assert(!(acts[k - 1] is Fail) && !(acts[k - 1] is Finish));
        if p.stage == AddStage::Bare && stage_rank(s.stage) > 1 && stage_rank(p.stage) <= 1 {
            assert(not_bare(evs[k - 1]));
        }
        if p.stage == AddStage::Commits && stage_rank(s.stage) > 2 {
            assert(has_commit(evs[k - 1]));
        }
        if p.stage == AddStage::Target && stage_rank(s.stage) > 4 {
            assert(evs[k - 1] == AddEvent::Flag(false));
        }
        if p.stage == AddStage::CheckedOut && stage_rank(s.stage) > 7 {
            if let AddEvent::Worktrees(Ok(ws)) = ev {
                assert forall|i: int| 0 <= i < ws@.len() implies (#[trigger] infos(ws@)[i]).branch
                    != Some(s.name) by {
                    if infos(ws@)[i].branch == Some(s.name) {
                        lemma_first_on_branch(infos(ws@), s.name, i);
                    }
                }
                assert(not_checked_out(evs[k - 1], s.name));
            }
        }
    }
}

/// `wt add` creates a worktree only after every check passed: when a
/// dialogue that starts with the first question ends with the worktree
/// created at `t`, git answered that the repository is not bare and that
/// HEAD names a commit, `t` was found not to exist, and a local branch that
/// already existed was given no base and no upstream and was checked out in
/// no worktree.
pub proof fn lemma_add_checks_before_create(
    ss: Seq<AddView>,
    evs: Seq<AddEvent>,
    acts: Seq<AddAction>,
)
    requires
        add_dialogue(ss, evs, acts),
        ss[0].stage == AddStage::MainRoot,
        acts.len() > 0,
        acts.last() is Finish,
    ensures
        exists|j: int| 0 <= j < evs.len() && ss[j].stage == AddStage::Bare && not_bare(evs[j]),
        exists|j: int| 0 <= j < evs.len() && ss[j].stage == AddStage::Commits && has_commit(evs[j]),
        acts.last() matches AddAction::Finish(t) && exists|j: int|
            0 <= j < evs.len() && ss[j].stage == AddStage::Target && evs[j] == AddEvent::Flag(false)
                && ss[j].target == t@,
        ss[evs.len() - 1].branch_exists ==> ss[0].base is None && ss[0].track is None
            && exists|j: int|
            0 <= j < evs.len() && ss[j].stage == AddStage::CheckedOut && not_checked_out(
                evs[j],
                ss[0].name,
            ),
{
    let m = acts.len() - 1;
    lemma_add_facts(ss, evs, acts, m);
    assert(add_transition(ss[m], evs[m], ss[m + 1], acts[m]));
    assert(ss[m].stage == AddStage::Create);
}

/// The query names the worktree: its name, its branch or its path.
spec fn names_worktree(w: InfoView, q: Seq<char>) -> bool {
    w.name == q || w.branch == Some(q) || w.path == q
}

/// When some worktree is named by the query, a first one is.
proof fn lemma_first_named(ws: Seq<InfoView>, q: Seq<char>, i: int)
    requires
        0 <= i < ws.len(),
        names_worktree(ws[i], q),
    ensures
        exists|k: int|
            0 <= k <= i && names_worktree(#[trigger] ws[k], q) && forall|j: int|
                0 <= j < k ==> !names_worktree(#[trigger] ws[j], q),
    decreases i,
{
    if exists|j: int| 0 <= j < i && names_worktree(#[trigger] ws[j], q) {
        let j = choose|j: int| 0 <= j < i && names_worktree(#[trigger] ws[j], q);
        lemma_first_named(ws, q, j);
    } else {
        assert(names_worktree(ws[i], q));
    }
}

/// A query equal to some worktree's name, branch or path, that names no
/// path inside a worktree, resolves to the first worktree whose name, branch
/// or path equals it: it is never ambiguous and never unmatched, so a query
/// equal to a name wins over substring and fuzzy matches of other worktrees.
/// `r` is any result that `resolve_from_worktrees_with_paths` may return.
pub proof fn lemma_named_query_resolves_to_first_named(
    worktrees: Seq<WorktreeInfo>,
    q: Seq<char>,
    qc: Option<Seq<char>>,
    canons: Seq<Option<Seq<char>>>,
    i: int,
    r: Result<WorktreeInfo, AppError>,
)
    requires
        0 <= i < worktrees.len() <= usize::MAX,
        worktrees[i]@.name == q || worktrees[i]@.branch == Some(q) || worktrees[i]@.path == q,
        match qc {
            Some(c) => forall|j: int| !encloses(worktrees.len() as int, canons, c, j),
            None => true,
        },
        outcome_is(worktrees, q, resolution(infos(worktrees), q, qc, canons), r),
    ensures
        exists|k: int|
            #![trigger worktrees[k]]
            0 <= k <= i && (worktrees[k]@.name == q || worktrees[k]@.branch == Some(q)
                || worktrees[k]@.path == q) && (forall|j: int|
                0 <= j < k ==> !(worktrees[j]@.name == q || worktrees[j]@.branch == Some(q)
                    || worktrees[j]@.path == q)) && resolution(infos(worktrees), q, qc, canons)
                == Resolution::Found(k as usize) && (r matches Ok(w) && w@ == worktrees[k]@),
        resolution(infos(worktrees), q, qc, canons) != Resolution::Ambiguous,
        r is Ok,
{
    let ws = infos(worktrees);
    assert(ws[i] == worktrees[i]@);
    lemma_first_named(ws, q, i);
    let k = choose|k: int|
        0 <= k <= i && names_worktree(#[trigger] ws[k], q) && forall|j: int|
            0 <= j < k ==> !names_worktree(#[trigger] ws[j], q);
    assert(first_exact(ws, q, k)) by {
        assert forall|j: int| 0 <= j < k implies !crate::git::resolve::exact_match(
            #[trigger] ws[j],
            q,
        ) by {
            assert(!names_worktree(ws[j], q));
        }
    }
    if let Some(c) = qc {
        assert(!exists|x: int| is_deepest(ws.len() as int, canons, c, x));
    }
    assert(path_resolution(ws.len() as int, qc, canons) is None);
    let c = choose|x: int| first_exact(ws, q, x);
    if c < k {
        assert(crate::git::resolve::exact_match(ws[c], q));
        assert(!names_worktree(ws[c], q));
    } else if k < c {
        assert(crate::git::resolve::exact_match(ws[k], q));
    }
    assert(name_resolution(ws, q) == Resolution::Found(k as usize));
    assert forall|j: int| 0 <= j < k implies !(worktrees[j]@.name == q || worktrees[j]@.branch
        == Some(q) || worktrees[j]@.path == q) by {
        assert(ws[j] == worktrees[j]@);
        assert(!names_worktree(ws[j], q));
    }
    assert(worktrees[k]@ == ws[k]);
    assert(resolution(ws, q, qc, canons) == Resolution::Found(k as usize));
    assert(r matches Ok(w) && w@ == worktrees[k]@);
}

/// Sanitizing a branch for a directory name keeps every alphanumeric
/// character (capitals and non-ASCII letters included), `.`, `_` and `-`
/// where it stands, and writes `-` for every other character; the length
/// stays.
pub proof fn lemma_sanitize_keeps_alphanumerics(branch: Seq<char>)
    ensures
        sanitized(branch).len() == branch.len(),
        forall|i: int|
            0 <= i < branch.len() && (alphanumeric(branch[i]) || branch[i] == '.' || branch[i]
                == '_' || branch[i] == '-') ==> #[trigger] sanitized(branch)[i] == branch[i],
        forall|i: int|
            0 <= i < branch.len() && !(alphanumeric(branch[i]) || branch[i] == '.' || branch[i]
                == '_' || branch[i] == '-') ==> #[trigger] sanitized(branch)[i] == '-',
{
}

/// Without `--force`, a worktree whose directory exists, that is neither
/// the main nor the active worktree, has no uncommitted changes, no commit
/// ahead of its upstream and is on a branch, is removed with
/// `git worktree remove <path>`, however far behind its upstream it is.
/// `r` is any action that `remove_next` may return once the last question
/// (is it active?) is answered no.
pub proof fn lemma_clean_branch_worktree_is_removed(info: WorktreeInfo, reachable: bool, r: RemoveAction)
    requires
        !info.status.is_dirty,
        info.status.ahead == 0,
        info.branch is Some,
        carries_out(r, remove_step(info@, false, RemoveCheck::IsActive, false), info@, false),
    ensures
        removal_outcome(info@, false, true, false, false, reachable) is Remove,
        r matches RemoveAction::Remove(args) && strings(args@) == seq![
            "worktree"@,
            "remove"@,
            info.path@,
        ],
{
}

/// With an upstream, the probe compares HEAD (on the left) with it: once
/// the upstream is found it asks exactly
/// `git rev-list --left-right --count HEAD...@{u}`, and when git prints
/// `a<TAB>b` it reports `a` commits ahead and `b` behind. `asked` is any
/// action that `probe_next` may return after the upstream question
/// succeeded, `done` any after the counting question printed `out`.
pub proof fn lemma_upstream_compared_head_first(
    asked: ProbeAction,
    st: CommandStatus,
    done: ProbeAction,
    a: u32,
    b: u32,
)
    requires
        asks(asked, ProbeStep::LeftRight),
        st.success,
        st.stdout@ == decimal(a as nat) + "\t"@ + decimal(b as nat),
        done == ProbeAction::Done(rev_list_counts(st.stdout@).0, rev_list_counts(st.stdout@).1),
    ensures
        asked matches ProbeAction::Run(_, args) && strings(args@) == seq![
            "rev-list"@,
            "--left-right"@,
            "--count"@,
            "HEAD...@{u}"@,
        ],
        done == ProbeAction::Done(a, b),
{
    lemma_rev_list_counts_read_back(a, b);
}

/// A line break ends the line read so far, with what came before it.
proof fn lemma_lines_from_line(a: Seq<char>, t: Seq<char>, cur: Seq<char>)
    requires
        forall|i: int| 0 <= i < a.len() ==> a[i] != '\n',
    ensures
        lines_from(a + seq!['\n'] + t, cur) == seq![strip_cr(cur + a)] + lines_from(t, seq![]),
    decreases a.len(),
{
    if a.len() == 0 {
        assert(a + seq!['\n'] + t =~= seq!['\n'] + t);
        assert((seq!['\n'] + t).drop_first() =~= t);
        assert(cur + a =~= cur);
    } else {
        let s = a + seq!['\n'] + t;
        assert(s[0] == a[0]);
        assert(s.drop_first() =~= a.drop_first() + seq!['\n'] + t);
        assert forall|i: int| 0 <= i < a.drop_first().len() implies a.drop_first()[i] != '\n' by {
            assert(a.drop_first()[i] == a[i + 1]);
        }
        lemma_lines_from_line(a.drop_first(), t, cur.push(a[0]));
        assert(cur.push(a[0]) + a.drop_first() =~= cur + a);
    }
}

/// The key and value of a porcelain line `k v`, `k` holding no space.
proof fn lemma_key_value(k: Seq<char>, v: Seq<char>)
    requires
        forall|i: int| 0 <= i < k.len() ==> k[i] != ' ',
    ensures
        line_key(k + seq![' '] + v) == k,
        line_value(k + seq![' '] + v) == v,
{
    let l = k + seq![' '] + v;
    assert(l[k.len() as int] == ' ');
    assert forall|j: int| 0 <= j < l.len() && j < k.len() implies l[j] != ' ' by {
        assert(l[j] == k[j]);
    }
    lemma_index_of_is(l, ' ', k.len() as int);
    assert(l.take(k.len() as int) =~= k);
    assert(l.skip(k.len() as int + 1) =~= v);
}

/// The value of a porcelain line is all of it after the first space, spaces
/// included: `git worktree list --porcelain` output with the lines
/// `worktree <p>`, `HEAD <h>` and `branch refs/heads/<b>` describes exactly
/// one worktree, at path `p` (whatever spaces it holds), with hash `h`, on
/// branch `b` and named after it.
pub proof fn lemma_porcelain_values_are_whole(p: Seq<char>, h: Seq<char>, b: Seq<char>)
    requires
        forall|i: int| 0 <= i < p.len() ==> p[i] != '\n',
        forall|i: int| 0 <= i < h.len() ==> h[i] != '\n',
        forall|i: int| 0 <= i < b.len() ==> b[i] != '\n',
        p.len() == 0 || p.last() != '\r',
        h.len() == 0 || h.last() != '\r',
        b.len() == 0 || b.last() != '\r',
    ensures
        parsed_worktrees(
            "worktree "@ + p + "\nHEAD "@ + h + "\nbranch refs/heads/"@ + b + "\n"@,
        ).len() == 1,
        parsed_worktrees(
            "worktree "@ + p + "\nHEAD "@ + h + "\nbranch refs/heads/"@ + b + "\n"@,
        )[0].path == p,
        parsed_worktrees(
            "worktree "@ + p + "\nHEAD "@ + h + "\nbranch refs/heads/"@ + b + "\n"@,
        )[0].head_hash == h,
        parsed_worktrees(
            "worktree "@ + p + "\nHEAD "@ + h + "\nbranch refs/heads/"@ + b + "\n"@,
        )[0].branch == Some(b),
        parsed_worktrees(
            "worktree "@ + p + "\nHEAD "@ + h + "\nbranch refs/heads/"@ + b + "\n"@,
        )[0].name == b,
{
    reveal_strlit("worktree ");
    reveal_strlit("\nHEAD ");
    reveal_strlit("\nbranch refs/heads/");
    reveal_strlit("\n");
    reveal_strlit("worktree");
    reveal_strlit("HEAD");
    reveal_strlit("branch");
    reveal_strlit("refs/heads/");
    let kw: Seq<char> = "worktree"@;
    let kh: Seq<char> = "HEAD"@;
    let kb: Seq<char> = "branch"@;
    let rh: Seq<char> = "refs/heads/"@;
    let l1 = kw + seq![' '] + p;
    let l2 = kh + seq![' '] + h;
    let l3 = kb + seq![' '] + (rh + b);
    let raw = "worktree "@ + p + "\nHEAD "@ + h + "\nbranch refs/heads/"@ + b + "\n"@;
    let nl: Seq<char> = seq!['\n'];
    assert(raw =~= l1 + nl + (l2 + nl + (l3 + nl + Seq::<char>::empty())));
    // No line holds a line break.
    assert forall|i: int| 0 <= i < l1.len() implies l1[i] != '\n' by {
        if i >= kw.len() + 1 {
            assert(l1[i] == p[i - kw.len() - 1]);
        }
    }
    assert forall|i: int| 0 <= i < l2.len() implies l2[i] != '\n' by {
        if i >= kh.len() + 1 {
            assert(l2[i] == h[i - kh.len() - 1]);
        }
    }
    assert forall|i: int| 0 <= i < l3.len() implies l3[i] != '\n' by {
        if i >= kb.len() + 1 + rh.len() {
            assert(l3[i] == b[i - kb.len() - 1 - rh.len()]);
        }
    }
    lemma_lines_from_line(l1, l2 + nl + (l3 + nl + Seq::<char>::empty()), seq![]);
    lemma_lines_from_line(l2, l3 + nl + Seq::<char>::empty(), seq![]);
    lemma_lines_from_line(l3, Seq::<char>::empty(), seq![]);
    assert(Seq::<char>::empty() + l1 =~= l1);
    assert(Seq::<char>::empty() + l2 =~= l2);
    assert(Seq::<char>::empty() + l3 =~= l3);
    assert(strip_cr(l1) == l1);
    assert(strip_cr(l2) == l2);
    assert(strip_cr(l3) == l3);
    let ls = lines(raw);
    assert(ls =~= seq![l1, l2, l3]);
    // The keys and values of the lines.
    lemma_key_value(kw, p);
    lemma_key_value(kh, h);
    lemma_key_value(kb, rh + b);
    assert(kh != kw);
    assert(kb != kw && kb != kh);
    let e = crate::git::parse::empty_block();
    assert(seq![l1, l2, l3].drop_last() =~= seq![l1, l2]);
    assert(seq![l1, l2].drop_last() =~= seq![l1]);
    assert(seq![l1].drop_last() =~= Seq::<Seq<char>>::empty());
    let c1 = record_line(e, l1);
    let c2 = record_line(c1, l2);
    let c3 = record_line(c2, l3);
    assert(scan_blocks(Seq::<Seq<char>>::empty()) == (Seq::<InfoView>::empty(), e));
    assert(seq![l1].last() == l1 && l1.len() > 0);
    assert(seq![l1, l2].last() == l2 && l2.len() > 0);
    assert(seq![l1, l2, l3].last() == l3 && l3.len() > 0);
    assert(scan_blocks(seq![l1]) == (Seq::<InfoView>::empty(), c1));
    assert(scan_blocks(seq![l1, l2]) == (Seq::<InfoView>::empty(), c2));
    assert(scan_blocks(ls) == (Seq::<InfoView>::empty(), c3));
    assert(c3.worktree == Some(p) && c3.head == Some(h) && c3.branch == Some(rh + b));
    assert(crate::text::starts_with(rh + b, rh)) by {
        assert((rh + b).take(rh.len() as int) =~= rh);
    }
    assert((rh + b).skip(rh.len() as int) =~= b);
    assert(parsed_worktrees(raw) =~= seq![block_worktree(c3).unwrap()]);
}

} // verus!
