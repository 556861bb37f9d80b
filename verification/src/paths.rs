//! Unix path arithmetic on strings: the final component, the parent and
//! joining, with the meaning that `std::path::Path` gives them on Unix.
use vstd::prelude::*;
use crate::text::{
    append_chars, chars_eq, chars_of, has_prefix, lemma_pieces_nonempty, lemma_views_push, pieces,
    separated, split_pieces,
    starts_with, views,
};

verus! {

/// The last index of `c` in `s`, or -1 when `s` has none.
pub open spec fn last_index_of(s: Seq<char>, c: char) -> int
    decreases s.len(),
{
    if s.len() == 0 {
        -1
    } else if s.last() == c {
        s.len() - 1
    } else {
        last_index_of(s.drop_last(), c)
    }
}

/// `last_index_of` is -1 or a position of `c`, and no `c` comes after it.
pub proof fn lemma_last_index_of(s: Seq<char>, c: char)
    ensures
        -1 <= last_index_of(s, c) < s.len(),
        last_index_of(s, c) >= 0 ==> s[last_index_of(s, c)] == c,
        forall|j: int| last_index_of(s, c) < j < s.len() ==> s[j] != c,
    decreases s.len(),
{
    if s.len() > 0 && s.last() != c {
        lemma_last_index_of(s.drop_last(), c);
        assert forall|j: int| last_index_of(s, c) < j < s.len() implies s[j] != c by {
            if j < s.len() - 1 {
                assert(s[j] == s.drop_last()[j]);
            }
        }
    }
}

/// `s` without trailing separators and trailing `.` components; a leading
/// root separator is kept.
pub open spec fn trim_path_end(s: Seq<char>) -> Seq<char>
    decreases s.len(),
{
    if s.len() > 1 && s.last() == '/' {
        trim_path_end(s.drop_last())
    } else if s.len() > 1 && s.last() == '.' && s[s.len() - 2] == '/' {
        trim_path_end(s.drop_last())
    } else {
        s
    }
}

/// The final component of `s` after trimming: what follows its last separator.
pub open spec fn last_component(s: Seq<char>) -> Seq<char> {
    let t = trim_path_end(s);
    t.skip(last_index_of(t, '/') + 1)
}

/// The final component of `s` when it is a normal name, as
/// `Path::file_name` gives it: none for the root, `.`, `..` or an empty path.
pub open spec fn file_name(s: Seq<char>) -> Option<Seq<char>> {
    let c = last_component(s);
    if c.len() == 0 || c == seq!['.'] || c == seq!['.', '.'] {
        None
    } else {
        Some(c)
    }
}

/// `s` without its final component, as `Path::parent` gives it: none for the
/// root or an empty path.
pub open spec fn parent(s: Seq<char>) -> Option<Seq<char>> {
    let t = trim_path_end(s);
    if t.len() == 0 || t == seq!['/'] {
        None
    } else {
        Some(trim_path_end(t.take(last_index_of(t, '/') + 1)))
    }
}

/// `a` joined with `b`, as `Path::join` joins on Unix: an absolute `b`
/// replaces `a`; otherwise a separator is put between them when `a` is
/// non-empty and does not end in one.
pub open spec fn join(a: Seq<char>, b: Seq<char>) -> Seq<char> {
    if b.len() > 0 && b[0] == '/' {
        b
    } else if a.len() > 0 && a.last() != '/' {
        a + seq!['/'] + b
    } else {
        a + b
    }
}

/// `s` is an absolute path.
pub open spec fn is_absolute(s: Seq<char>) -> bool {
    s.len() > 0 && s[0] == '/'
}

/// `path` equals `ancestor` or lies below it, compared as strings with a
/// separator after `ancestor`; an empty `ancestor` contains nothing.
pub open spec fn is_within(path: Seq<char>, ancestor: Seq<char>) -> bool {
    ancestor.len() > 0 && (path == ancestor || starts_with(path, ancestor.push('/')))
}

/// The named pieces among `ps`: neither empty nor `.`.
pub open spec fn named_pieces(ps: Seq<Seq<char>>) -> Seq<Seq<char>>
    decreases ps.len(),
{
    if ps.len() == 0 {
        seq![]
    } else {
        named_pieces(ps.drop_last()) + (if ps.last().len() > 0 && ps.last() != seq!['.'] {
            seq![ps.last()]
        } else {
            seq![]
        })
    }
}

/// The components of `s` as `Path::components` yields them on Unix: the root
/// (written `/`) or a leading current directory (`.`), then the names
/// between separators, skipping empty ones and `.`.
pub open spec fn components(s: Seq<char>) -> Seq<Seq<char>> {
    let lead = if is_absolute(s) {
        seq![seq!['/']]
    } else if s == seq!['.'] || starts_with(s, seq!['.', '/']) {
        seq![seq!['.']]
    } else {
        seq![]
    };
    lead + named_pieces(pieces(s, '/'))
}

/// The components of `base` begin the components of `p`, as
/// `Path::starts_with` compares them.
pub open spec fn path_starts_with(p: Seq<char>, base: Seq<char>) -> bool {
    let cp = components(p);
    let cb = components(base);
    cb.len() <= cp.len() && cp.take(cb.len() as int) == cb
}

fn is_dot(v: &Vec<char>) -> (r: bool)
    ensures
        r == (v@ == seq!['.']),
{
    let ghost dot: Seq<char> = seq!['.'];
    if v.len() == 1 && v[0] == '.' {
        assert(v@ =~= dot);
        true
    } else {
        proof {
            if v@ == dot {
                assert(v@[0] == dot[0]);
            }
        }
        false
    }
}

/// The components of `s`.
pub fn path_components(s: &Vec<char>) -> (r: Vec<Vec<char>>)
    ensures
        views(r@) == components(s@),
{
    let ps = split_pieces(s, '/');
    let mut out: Vec<Vec<char>> = Vec::new();
    let ghost dot: Seq<char> = seq!['.'];
    let ghost dot_slash: Seq<char> = seq!['.', '/'];
    if s.len() > 0 && s[0] == '/' {
        let mut root: Vec<char> = Vec::new();
        root.push('/');
        proof {
            lemma_views_push(out@, root);
        }
        out.push(root);
    } else if s.len() > 0 && s[0] == '.' && (s.len() == 1 || s[1] == '/') {
        let mut cur: Vec<char> = Vec::new();
        cur.push('.');
        proof {
            lemma_views_push(out@, cur);
            if s.len() == 1 {
                assert(s@ =~= dot);
            } else {
                assert(s@.take(2) =~= dot_slash);
            }
        }
        out.push(cur);
    } else {
        proof {
            if s@ == dot {
                assert(s@[0] == dot[0]);
            }
            if starts_with(s@, dot_slash) {
                assert(s@.take(2)[0] == dot_slash[0]);
                assert(s@.take(2)[1] == dot_slash[1]);
            }
        }
    }
    let ghost lead = views(out@);
    let ghost pv = views(ps@);
    assert(pv.take(0) =~= Seq::<Seq<char>>::empty());
    assert(lead + named_pieces(pv.take(0)) =~= lead);
    let mut i: usize = 0;
    while i < ps.len()
        invariant
            i <= ps.len(),
            pv == views(ps@),
            views(out@) == lead + named_pieces(pv.take(i as int)),
        decreases ps.len() - i,
    {
        assert(pv.take(i + 1).drop_last() =~= pv.take(i as int));
        assert(pv.take(i + 1).last() == ps@[i as int]@);
        let p = &ps[i];
        if p.len() > 0 && !is_dot(p) {
            let c = crate::text::slice_chars(p, 0, p.len());
            assert(p@.subrange(0, p@.len() as int) =~= p@);
            proof {
                lemma_views_push(out@, c);
            }
            out.push(c);
            assert(views(out@) =~= lead + named_pieces(pv.take(i + 1)));
        } else {
            assert(views(out@) =~= lead + named_pieces(pv.take(i + 1)));
        }
        i += 1;
    }
    assert(pv.take(ps.len() as int) =~= pv);
    out
}

/// The components of `base` begin the components of `p`.
pub fn path_has_prefix(p: &str, base: &str) -> (r: bool)
    ensures
        r == path_starts_with(p@, base@),
{
    let cp = path_components(&crate::text::chars_of(p));
    let cb = path_components(&crate::text::chars_of(base));
    if cb.len() > cp.len() {
        return false;
    }
    let mut i: usize = 0;
    while i < cb.len()
        invariant
            i <= cb.len() <= cp.len(),
            views(cp@) == components(p@),
            views(cb@) == components(base@),
            forall|j: int| 0 <= j < i ==> cp@[j]@ == cb@[j]@,
        decreases cb.len() - i,
    {
        if !chars_eq(&cp[i], &cb[i]) {
            assert(views(cp@).take(cb.len() as int)[i as int] == cp@[i as int]@);
            assert(views(cb@)[i as int] == cb@[i as int]@);
            return false;
        }
        i += 1;
    }
    assert(views(cp@).take(cb.len() as int) =~= views(cb@));
    true
}

/// The end index of `trim_path_end(s[..hi])`.
fn trim_path_end_at(s: &Vec<char>, hi: usize) -> (r: usize)
    requires
        hi <= s.len(),
    ensures
        r <= hi,
        s@.take(r as int) == trim_path_end(s@.take(hi as int)),
{
    let mut b = hi;
    while (b > 1 && s[b - 1] == '/') || (b > 1 && s[b - 1] == '.' && s[b - 2] == '/')
        invariant
            b <= hi <= s.len(),
            trim_path_end(s@.take(b as int)) == trim_path_end(s@.take(hi as int)),
        decreases b,
    {
        assert(s@.take(b as int).drop_last() =~= s@.take(b - 1));
        b -= 1;
    }
    b
}

/// The index just after the last `c` in `s[..hi]`, or 0.
fn after_last(s: &Vec<char>, hi: usize, c: char) -> (r: usize)
    requires
        hi <= s.len(),
    ensures
        r == last_index_of(s@.take(hi as int), c) + 1,
{
    let mut i = hi;
    while i > 0 && s[i - 1] != c
        invariant
            i <= hi <= s.len(),
            last_index_of(s@.take(i as int), c) == last_index_of(s@.take(hi as int), c),
        decreases i,
    {
        assert(s@.take(i as int).drop_last() =~= s@.take(i - 1));
        i -= 1;
    }
    i
}

/// The final component of `path` when it is a normal name.
pub fn path_file_name(path: &Vec<char>) -> (r: Option<Vec<char>>)
    ensures
        match r {
            Some(v) => file_name(path@) == Some(v@),
            None => file_name(path@) is None,
        },
{
    let b = trim_path_end_at(path, path.len());
    assert(path@.take(path@.len() as int) =~= path@);
    let k = after_last(path, b, '/');
    proof {
        lemma_last_index_of(path@.take(b as int), '/');
    }
    let comp = crate::text::slice_chars(path, k, b);
    assert(comp@ =~= last_component(path@));
    if comp.len() == 0 || (comp.len() == 1 && comp[0] == '.') || (comp.len() == 2 && comp[0] == '.'
        && comp[1] == '.') {
        assert(comp.len() == 1 ==> comp@ =~= seq!['.'] || comp[0] != '.');
        assert(comp.len() == 2 ==> comp@ =~= seq!['.', '.'] || comp[0] != '.' || comp[1] != '.');
        None
    } else {
        proof {
            let ghost dot: Seq<char> = seq!['.'];
            let dots: Seq<char> = seq!['.', '.'];
            assert(dot.len() == 1 && dot[0] == '.');
            assert(dots.len() == 2 && dots[0] == '.' && dots[1] == '.');
            assert(comp@ != dot);
            assert(comp@ != dots);
        }
        Some(comp)
    }
}

/// `path` without its final component.
pub fn path_parent(path: &Vec<char>) -> (r: Option<Vec<char>>)
    ensures
        match r {
            Some(v) => parent(path@) == Some(v@),
            None => parent(path@) is None,
        },
{
    let b = trim_path_end_at(path, path.len());
    assert(path@.take(path@.len() as int) =~= path@);
    if b == 0 || (b == 1 && path[0] == '/') {
        assert(b == 1 ==> path@.take(1) =~= seq!['/']);
        return None;
    }
    proof {
        if path@.take(b as int) == seq!['/'] {
            assert(path@.take(b as int).len() == seq!['/'].len());
            assert(path@.take(b as int)[0] == seq!['/'][0]);
        }
    }
    let k = after_last(path, b, '/');
    proof {
        lemma_last_index_of(path@.take(b as int), '/');
    }
    assert(path@.take(b as int).take(k as int) =~= path@.take(k as int));
    let e = trim_path_end_at(path, k);
    let r = crate::text::slice_chars(path, 0, e);
    assert(r@ =~= path@.take(e as int));
    Some(r)
}

/// `a` joined with `b`.
pub fn path_join(a: &Vec<char>, b: &Vec<char>) -> (r: Vec<char>)
    ensures
        r@ == join(a@, b@),
{
    let mut r: Vec<char> = Vec::new();
    if b.len() > 0 && b[0] == '/' {
        append_chars(&mut r, b);
        assert(r@ =~= b@);
        return r;
    }
    append_chars(&mut r, a);
    if a.len() > 0 && a[a.len() - 1] != '/' {
        r.push('/');
    }
    append_chars(&mut r, b);
    r
}

/// `path` equals `ancestor` or lies below it.
pub fn path_is_within(path: &str, ancestor: &str) -> (r: bool)
    ensures
        r == is_within(path@, ancestor@),
{
    let p = crate::text::chars_of(path);
    let mut a = crate::text::chars_of(ancestor);
    if a.len() == 0 {
        return false;
    }
    if p.len() == a.len() {
        let mut i: usize = 0;
        let mut same = true;
        while i < a.len()
            invariant
                i <= a.len() == p.len(),
                same <==> forall|j: int| 0 <= j < i ==> p@[j] == a@[j],
            decreases a.len() - i,
        {
            if p[i] != a[i] {
                same = false;
            }
            i += 1;
        }
        if same {
            assert(p@ =~= a@);
            return true;
        }
    }
    assert(p@ != a@ || p@ =~= a@);
    a.push('/');
    has_prefix(&p, &a)
}

/// A piece between separators that names a component: neither empty nor `.`.
pub open spec fn named(p: Seq<char>) -> bool {
    p.len() > 0 && p != seq!['.']
}

/// The number of leading pieces of `s` that stand for a root or a leading
/// current-directory component.
pub open spec fn lead_len(s: Seq<char>) -> nat {
    if is_absolute(s) || s == seq!['.'] || starts_with(s, seq!['.', '/']) {
        1
    } else {
        0
    }
}

/// The pieces after the first `k` named ones.
pub open spec fn skip_named(ps: Seq<Seq<char>>, k: nat) -> Seq<Seq<char>>
    decreases ps.len(),
{
    if k == 0 || ps.len() == 0 {
        ps
    } else if named(ps[0]) {
        skip_named(ps.drop_first(), (k - 1) as nat)
    } else {
        skip_named(ps.drop_first(), k)
    }
}

/// `ps` without its leading pieces that name nothing.
pub open spec fn trim_front_pieces(ps: Seq<Seq<char>>) -> Seq<Seq<char>>
    decreases ps.len(),
{
    if ps.len() > 0 && !named(ps[0]) {
        trim_front_pieces(ps.drop_first())
    } else {
        ps
    }
}

/// `ps` without its trailing pieces that name nothing, keeping the first `keep`.
pub open spec fn trim_back_pieces(ps: Seq<Seq<char>>, keep: nat) -> Seq<Seq<char>>
    decreases ps.len(),
{
    if ps.len() > keep && !named(ps.last()) {
        trim_back_pieces(ps.drop_last(), keep)
    } else {
        ps
    }
}

/// What `Path::strip_prefix` leaves of `p` on Unix when the components of
/// `base` begin those of `p`: the text of `p` after the piece of the last
/// component of `base`, without separators and `.` pieces at either end.
/// When `base` has no components, it is `p` without trailing separators and
/// `.` pieces (a root stays).
pub open spec fn rest_after(p: Seq<char>, base: Seq<char>) -> Seq<char> {
    let ps = pieces(p, '/');
    let k = components(base).len();
    if k == 0 {
        let t = trim_back_pieces(ps, lead_len(p));
        if is_absolute(p) && t.len() == 1 {
            seq!['/']
        } else {
            separated(t, seq!['/'])
        }
    } else {
        let after = if lead_len(p) == 1 {
            skip_named(ps.drop_first(), (k - 1) as nat)
        } else {
            skip_named(ps, k)
        };
        separated(trim_back_pieces(trim_front_pieces(after), 0), seq!['/'])
    }
}

fn is_named(v: &Vec<char>) -> (r: bool)
    ensures
        r == named(v@),
{
    v.len() > 0 && !is_dot(v)
}

/// The pieces `ps[lo..hi]` joined with `sep`.
fn join_pieces(ps: &Vec<Vec<char>>, lo: usize, hi: usize, sep: char) -> (r: Vec<char>)
    requires
        lo <= hi <= ps.len(),
    ensures
        r@ == separated(views(ps@).subrange(lo as int, hi as int), seq![sep]),
{
    let ghost pv = views(ps@);
    let mut r: Vec<char> = Vec::new();
    let mut i = lo;
    assert(pv.subrange(lo as int, lo as int) =~= Seq::<Seq<char>>::empty());
    while i < hi
        invariant
            lo <= i <= hi <= ps.len(),
            pv == views(ps@),
            r@ == separated(pv.subrange(lo as int, i as int), seq![sep]),
        decreases hi - i,
    {
        assert(pv.subrange(lo as int, i + 1).drop_last() =~= pv.subrange(lo as int, i as int));
        assert(pv.subrange(lo as int, i + 1).last() == ps@[i as int]@);
        if i > lo {
            r.push(sep);
        }
        append_chars(&mut r, &ps[i]);
        proof {
            if i == lo {
                assert(r@ =~= pv.subrange(lo as int, i + 1)[0]);
            } else {
                assert(r@ =~= separated(pv.subrange(lo as int, i as int), seq![sep]) + seq![sep]
                    + ps@[i as int]@);
            }
        }
        i += 1;
    }
    r
}

/// What `Path::strip_prefix` leaves of `p` after `base`, on Unix, when the
/// components of `base` begin those of `p`.
pub fn path_rest(p: &str, base: &str) -> (r: Vec<char>)
    ensures
        r@ == rest_after(p@, base@),
{
    let pc = chars_of(p);
    let ps = split_pieces(&pc, '/');
    let ghost pv = views(ps@);
    let k = path_components(&chars_of(base)).len();
    proof {
        lemma_pieces_nonempty(p@, '/');
    }
    let absolute = pc.len() > 0 && pc[0] == '/';
    let cur = pc.len() > 0 && pc[0] == '.' && (pc.len() == 1 || pc[1] == '/');
    proof {
        let dot: Seq<char> = seq!['.'];
        let dot_slash: Seq<char> = seq!['.', '/'];
        if p@ == dot {
            assert(p@[0] == dot[0]);
        }
        if starts_with(p@, dot_slash) {
            assert(p@.take(2)[0] == dot_slash[0]);
            assert(p@.take(2)[1] == dot_slash[1]);
        }
        if cur && pc.len() == 1 {
            assert(p@ =~= dot);
        }
        if cur && pc.len() > 1 {
            assert(p@.take(2) =~= dot_slash);
        }
    }
    let lead: usize = if absolute || cur {
        1
    } else {
        0
    };
    assert(lead == lead_len(p@));
    let n = ps.len();
    if k == 0 {
        let mut hi = n;
        assert(pv.subrange(0, n as int) =~= pv);
        while hi > lead && !is_named(&ps[hi - 1])
            invariant
                lead <= 1,
                lead <= hi <= n == ps.len(),
                pv == views(ps@),
                trim_back_pieces(pv.subrange(0, hi as int), lead as nat) == trim_back_pieces(
                    pv,
                    lead as nat,
                ),
            decreases hi,
        {
            assert(pv.subrange(0, hi as int).drop_last() =~= pv.subrange(0, hi - 1));
            assert(pv.subrange(0, hi as int).last() == ps@[hi - 1]@);
            hi -= 1;
        }
        proof {
            if hi > lead {
                assert(pv.subrange(0, hi as int).last() == ps@[hi - 1]@);
            }
        }
        if absolute && hi == 1 {
            let mut r: Vec<char> = Vec::new();
            r.push('/');
            assert(r@ =~= seq!['/']);
            return r;
        }
        return join_pieces(&ps, 0, hi, '/');
    }
    // Pass the lead piece (which stands for the first component) and then
    // the named pieces of the remaining components.
    let mut i: usize = lead;
    let mut m: usize = if lead == 1 {
        k - 1
    } else {
        k
    };
    proof {
        if lead == 1 {
            assert(pv.drop_first() =~= pv.subrange(1, n as int));
        } else {
            assert(pv =~= pv.subrange(0, n as int));
        }
    }
    let ghost after = if lead == 1 {
        skip_named(pv.drop_first(), (k - 1) as nat)
    } else {
        skip_named(pv, k as nat)
    };
    while m > 0 && i < n
        invariant
            i <= n == ps.len(),
            pv == views(ps@),
            skip_named(pv.subrange(i as int, n as int), m as nat) == after,
        decreases n - i,
    {
        assert(pv.subrange(i as int, n as int).drop_first() =~= pv.subrange(i + 1, n as int));
        assert(pv.subrange(i as int, n as int)[0] == ps@[i as int]@);
        if is_named(&ps[i]) {
            m -= 1;
        }
        i += 1;
    }
    assert(skip_named(pv.subrange(i as int, n as int), m as nat) == pv.subrange(i as int, n as int));
    let mut lo = i;
    while lo < n && !is_named(&ps[lo])
        invariant
            i <= lo <= n == ps.len(),
            pv == views(ps@),
            trim_front_pieces(pv.subrange(lo as int, n as int)) == trim_front_pieces(after),
        decreases n - lo,
    {
        assert(pv.subrange(lo as int, n as int).drop_first() =~= pv.subrange(lo + 1, n as int));
        assert(pv.subrange(lo as int, n as int)[0] == ps@[lo as int]@);
        lo += 1;
    }
    proof {
        if lo < n {
            assert(pv.subrange(lo as int, n as int)[0] == ps@[lo as int]@);
        }
    }
    let mut hi = n;
    while hi > lo && !is_named(&ps[hi - 1])
        invariant
            lo <= hi <= n == ps.len(),
            pv == views(ps@),
            trim_back_pieces(pv.subrange(lo as int, hi as int), 0) == trim_back_pieces(
                trim_front_pieces(after),
                0,
            ),
        decreases hi,
    {
        assert(pv.subrange(lo as int, hi as int).drop_last() =~= pv.subrange(lo as int, hi - 1));
        assert(pv.subrange(lo as int, hi as int).last() == ps@[hi - 1]@);
        hi -= 1;
    }
    proof {
        if hi > lo {
            assert(pv.subrange(lo as int, hi as int).last() == ps@[hi - 1]@);
        }
    }
    join_pieces(&ps, lo, hi, '/')
}

} // verus!
