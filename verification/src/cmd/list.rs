//! The order in which `wt list` shows worktrees: the main worktree first,
//! then by name, keeping the listed order among equals.
use vstd::prelude::*;
use crate::git::parse::infos;
use crate::models::{InfoView, WorktreeInfo};
use crate::text::chars_of;

verus! {

/// `a` sorts before `b` character by character, as `String`'s `Ord` compares
/// (UTF-8 byte order agrees with the order of the characters).
pub open spec fn name_lt(a: Seq<char>, b: Seq<char>) -> bool
    decreases a.len(),
{
    if a.len() == 0 {
        b.len() > 0
    } else if b.len() == 0 {
        false
    } else if a[0] != b[0] {
        a[0] < b[0]
    } else {
        name_lt(a.drop_first(), b.drop_first())
    }
}

/// No name comes before itself.
pub proof fn lemma_name_lt_irreflexive(a: Seq<char>)
    ensures
        !name_lt(a, a),
    decreases a.len(),
{
    if a.len() > 0 {
        lemma_name_lt_irreflexive(a.drop_first());
    }
}

/// The order of names is transitive.
pub proof fn lemma_name_lt_transitive(a: Seq<char>, b: Seq<char>, c: Seq<char>)
    requires
        name_lt(a, b),
        name_lt(b, c),
    ensures
        name_lt(a, c),
    decreases a.len(),
{
    if a.len() > 0 && b.len() > 0 && c.len() > 0 && a[0] == b[0] && b[0] == c[0] {
        lemma_name_lt_transitive(a.drop_first(), b.drop_first(), c.drop_first());
    }
}

/// Of two different names, one comes before the other.
pub proof fn lemma_name_lt_total(a: Seq<char>, b: Seq<char>)
    ensures
        a == b || name_lt(a, b) || name_lt(b, a),
    decreases a.len(),
{
    if a.len() > 0 && b.len() > 0 && a[0] == b[0] {
        lemma_name_lt_total(a.drop_first(), b.drop_first());
        if a.drop_first() == b.drop_first() {
            assert forall|k: int| 0 <= k < a.len() implies a[k] == b[k] by {
                if k > 0 {
                    assert(a[k] == a.drop_first()[k - 1]);
                    assert(b[k] == b.drop_first()[k - 1]);
                }
            }
            assert(a =~= b);
        }
    } else if a.len() == 0 && b.len() == 0 {
        assert(a =~= b);
    } else if a.len() > 0 && b.len() > 0 {
        assert(a[0] != b[0]);
    }
}

/// Worktree `i` is marked as the main worktree.
pub open spec fn main_at(mains: Seq<bool>, i: int) -> bool {
    0 <= i < mains.len() && mains[i]
}

/// Worktree `i` is listed before worktree `j`: a main worktree before the
/// others, then by name, then in the given order.
pub open spec fn listed_before(ws: Seq<InfoView>, mains: Seq<bool>, i: int, j: int) -> bool {
    let mi = main_at(mains, i);
    let mj = main_at(mains, j);
    (mi && !mj) || (mi == mj && name_lt(ws[i].name, ws[j].name)) || (mi == mj && ws[i].name
        == ws[j].name && i < j)
}

proof fn lemma_before_transitive(ws: Seq<InfoView>, mains: Seq<bool>, i: int, j: int, k: int)
    requires
        listed_before(ws, mains, i, j),
        listed_before(ws, mains, j, k),
    ensures
        listed_before(ws, mains, i, k),
{
    if main_at(mains, i) == main_at(mains, j) && main_at(mains, j) == main_at(mains, k) {
        if name_lt(ws[i].name, ws[j].name) && name_lt(ws[j].name, ws[k].name) {
            lemma_name_lt_transitive(ws[i].name, ws[j].name, ws[k].name);
        }
    }
}

proof fn lemma_before_total(ws: Seq<InfoView>, mains: Seq<bool>, i: int, j: int)
    requires
        i != j,
    ensures
        listed_before(ws, mains, i, j) || listed_before(ws, mains, j, i),
{
    lemma_name_lt_total(ws[i].name, ws[j].name);
}

/// `ord` lists each of the `n` worktrees once, in listing order.
pub open spec fn is_listing_order(ws: Seq<InfoView>, mains: Seq<bool>, ord: Seq<usize>) -> bool {
    &&& ord.len() == ws.len()
    &&& forall|a: int| 0 <= a < ord.len() ==> #[trigger] ord[a] < ws.len()
    &&& forall|j: usize| j < ws.len() ==> #[trigger] ord.contains(j)
    &&& forall|a: int, b: int|
        0 <= a < b < ord.len() ==> listed_before(ws, mains, #[trigger] ord[a] as int, #[trigger] ord[b] as int)
}

fn names_less(a: &Vec<char>, b: &Vec<char>) -> (r: bool)
    ensures
        r == name_lt(a@, b@),
{
    let mut i: usize = 0;
    assert(a@.skip(0) =~= a@);
    assert(b@.skip(0) =~= b@);
    while i < a.len() && i < b.len() && a[i] == b[i]
        invariant
            i <= a.len(),
            i <= b.len(),
            name_lt(a@.skip(i as int), b@.skip(i as int)) == name_lt(a@, b@),
        decreases a.len() - i,
    {
        assert(a@.skip(i as int).drop_first() =~= a@.skip(i + 1));
        assert(b@.skip(i as int).drop_first() =~= b@.skip(i + 1));
        i += 1;
    }
    if i == a.len() {
        i < b.len()
    } else if i == b.len() {
        false
    } else {
        assert(a@.skip(i as int)[0] == a@[i as int]);
        assert(b@.skip(i as int)[0] == b@[i as int]);
        a[i] < b[i]
    }
}

fn is_main(mains: &Vec<bool>, i: usize) -> (r: bool)
    ensures
        r == main_at(mains@, i as int),
{
    i < mains.len() && mains[i]
}

fn before(worktrees: &Vec<WorktreeInfo>, mains: &Vec<bool>, i: usize, j: usize) -> (r: bool)
    requires
        i < worktrees.len(),
        j < worktrees.len(),
    ensures
        r == listed_before(infos(worktrees@), mains@, i as int, j as int),
{
    let ghost ws = infos(worktrees@);
    assert(ws[i as int] == worktrees@[i as int]@);
    assert(ws[j as int] == worktrees@[j as int]@);
    let mi = is_main(mains, i);
    let mj = is_main(mains, j);
    let a = chars_of(worktrees[i].name.as_str());
    let b = chars_of(worktrees[j].name.as_str());
    (mi && !mj) || (mi == mj && names_less(&a, &b)) || (mi == mj && crate::text::chars_eq(&a, &b)
        && i < j)
}

/// The order in which `wt list` shows the worktrees, as indices; `mains[i]`
/// tells whether worktree `i` is the main one (missing entries count as no).
pub fn list_order(worktrees: &Vec<WorktreeInfo>, mains: &Vec<bool>) -> (r: Vec<usize>)
    ensures
        is_listing_order(infos(worktrees@), mains@, r@),
{
    let ghost ws = infos(worktrees@);
    let n = worktrees.len();
    let mut out: Vec<usize> = Vec::new();
    let mut i: usize = 0;
    while i < n
        invariant
            i <= n == worktrees.len(),
            ws == infos(worktrees@),
            out@.len() == i,
            forall|a: int| 0 <= a < out@.len() ==> #[trigger] out@[a] < i,
            forall|j: usize| j < i ==> #[trigger] out@.contains(j),
            forall|a: int, b: int|
                0 <= a < b < out@.len() ==> listed_before(ws, mains@, #[trigger] out@[a] as int, #[trigger] out@[b] as int),
        decreases n - i,
    {
        let mut p: usize = 0;
        while p < out.len() && !before(worktrees, mains, i, out[p])
            invariant
                p <= out@.len(),
                i < n == worktrees.len(),
                ws == infos(worktrees@),
                forall|a: int| 0 <= a < out@.len() ==> #[trigger] out@[a] < i,
                forall|a: int| 0 <= a < p ==> !listed_before(ws, mains@, i as int, #[trigger] out@[a] as int),
            decreases out@.len() - p,
        {
            p += 1;
        }
        let ghost old_out = out@;
        proof {
            assert forall|a: int| 0 <= a < p implies listed_before(ws, mains@, #[trigger] old_out[a] as int, i as int) by {
                assert(old_out[a] < i);
                lemma_before_total(ws, mains@, old_out[a] as int, i as int);
            }
            assert forall|b: int| p <= b < old_out.len() implies listed_before(ws, mains@, i as int, #[trigger] old_out[b] as int) by {
                if b > p {
                    assert(listed_before(ws, mains@, old_out[p as int] as int, old_out[b] as int));
                    lemma_before_transitive(ws, mains@, i as int, old_out[p as int] as int, old_out[b] as int);
                }
            }
        }
        out.insert(p, i);
        proof {
            assert(out@ == old_out.insert(p as int, i));
            assert forall|a: int, b: int|
                0 <= a < b < out@.len() implies listed_before(ws, mains@, #[trigger] out@[a] as int, #[trigger] out@[b] as int) by {
                if b < p {
                    assert(out@[a] == old_out[a] && out@[b] == old_out[b]);
                } else if b == p {
                    assert(out@[a] == old_out[a]);
                } else if a < p {
                    assert(out@[a] == old_out[a] && out@[b] == old_out[b - 1]);
                } else if a == p {
                    assert(out@[b] == old_out[b - 1]);
                } else {
                    assert(out@[a] == old_out[a - 1] && out@[b] == old_out[b - 1]);
                }
            }
            assert forall|j: usize| j < i + 1 implies #[trigger] out@.contains(j) by {
                if j == i {
                    assert(out@[p as int] == i);
                } else {
                    assert(old_out.contains(j));
                    let a = choose|a: int| 0 <= a < old_out.len() && old_out[a] == j;
                    if a < p {
                        assert(out@[a] == old_out[a]);
                    } else {
                        assert(out@[a + 1] == old_out[a]);
                    }
                }
            }
        }
        i += 1;
    }
    out
}

/// The worktrees in the order `wt list` shows them.
pub fn sort_worktrees(worktrees: &Vec<WorktreeInfo>, mains: &Vec<bool>) -> (r: Vec<WorktreeInfo>)
    ensures
        exists|ord: Seq<usize>|
            is_listing_order(infos(worktrees@), mains@, ord) && r@.len() == ord.len() && forall|a: int|
                0 <= a < ord.len() ==> #[trigger] r@[a]@ == worktrees@[ord[a] as int]@,
{
    let ord = list_order(worktrees, mains);
    let mut r: Vec<WorktreeInfo> = Vec::new();
    let mut a: usize = 0;
    while a < ord.len()
        invariant
            a <= ord.len(),
            is_listing_order(infos(worktrees@), mains@, ord@),
            r@.len() == a,
            forall|k: int| 0 <= k < a ==> #[trigger] r@[k]@ == worktrees@[ord@[k] as int]@,
        decreases ord.len() - a,
    {
        let k = ord[a];
        assert(k < infos(worktrees@).len());
        r.push(worktrees[k].duplicate());
        a += 1;
    }
    r
}


/// The index of the first worktree whose canonical path is `toplevel`, the
/// worktree the shell stands in.
pub fn active_index(canon_paths: &Vec<String>, toplevel: &str) -> (r: Option<usize>)
    ensures
        match r {
            Some(k) => k < canon_paths@.len() && canon_paths@[k as int]@ == toplevel@ && forall|j: int|
                0 <= j < k ==> (#[trigger] canon_paths@[j])@ != toplevel@,
            None => forall|j: int| 0 <= j < canon_paths@.len() ==> (#[trigger] canon_paths@[j])@ != toplevel@,
        },
{
    let t = chars_of(toplevel);
    let mut i: usize = 0;
    while i < canon_paths.len()
        invariant
            i <= canon_paths.len(),
            t@ == toplevel@,
            forall|j: int| 0 <= j < i ==> (#[trigger] canon_paths@[j])@ != toplevel@,
        decreases canon_paths.len() - i,
    {
        if crate::text::chars_eq(&chars_of(canon_paths[i].as_str()), &t) {
            return Some(i);
        }
        i += 1;
    }
    None
}

} // verus!
