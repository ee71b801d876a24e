//! Text primitives over `Seq<char>`: substring search, replacement, trimming,
//! ASCII classes and decimal rendering, each with an executable counterpart.
use vstd::prelude::*;

verus! {

// ---------------------------------------------------------------------------
// Conversions between `&str` / `String` and `Vec<char>`
// ---------------------------------------------------------------------------

/// The characters of `s`, in order.
pub fn chars_of(s: &str) -> (res: Vec<char>)
    ensures
        res@ == s@,
{
    let mut res: Vec<char> = Vec::new();
    for c in it: s.chars()
        invariant
            res@ == it.seq().take(it.index() as int),
    {
        res.push(c);
    }
    res
}

/// Appends one character to a `String` (std's `String::push`).
#[verifier::external_body]
fn string_push(s: &mut String, c: char)
    ensures
        final(s)@ == old(s)@.push(c),
{
    s.push(c);
}

/// The string made of the characters of `v`.
pub fn string_of(v: &Vec<char>) -> (res: String)
    ensures
        res@ == v@,
{
    let mut res = String::new();
    let mut i: usize = 0;
    while i < v.len()
        invariant
            i <= v.len(),
            res@ == v@.take(i as int),
        decreases v.len() - i,
    {
        string_push(&mut res, v[i]);
        assert(v@.take(i + 1) =~= v@.take(i as int).push(v@[i as int]));
        i += 1;
    }
    assert(v@.take(v.len() as int) =~= v@);
    res
}

/// Appends `t[lo..hi]` to `out`.
pub fn push_range(out: &mut Vec<char>, t: &Vec<char>, lo: usize, hi: usize)
    requires
        lo <= hi <= t.len(),
    ensures
        final(out)@ == old(out)@ + t@.subrange(lo as int, hi as int),
{
    let ghost start = out@;
    let mut i = lo;
    while i < hi
        invariant
            lo <= i <= hi <= t.len(),
            out@ == start + t@.subrange(lo as int, i as int),
        decreases hi - i,
    {
        out.push(t[i]);
        assert(t@.subrange(lo as int, i + 1) =~= t@.subrange(lo as int, i as int).push(t@[i as int]));
        i += 1;
    }
}

/// Appends all of `t` to `out`.
pub fn push_all(out: &mut Vec<char>, t: &Vec<char>)
    ensures
        final(out)@ == old(out)@ + t@,
{
    push_range(out, t, 0, t.len());
    assert(t@.subrange(0, t.len() as int) =~= t@);
}

/// Appends the characters of `s` to `out`.
pub fn push_str(out: &mut Vec<char>, s: &str)
    ensures
        final(out)@ == old(out)@ + s@,
{
    let v = chars_of(s);
    push_all(out, &v);
}

/// The characters `t[lo..hi]` as a fresh vector.
pub fn slice_vec(t: &Vec<char>, lo: usize, hi: usize) -> (res: Vec<char>)
    requires
        lo <= hi <= t.len(),
    ensures
        res@ == t@.subrange(lo as int, hi as int),
{
    let mut res: Vec<char> = Vec::new();
    push_range(&mut res, t, lo, hi);
    res
}

/// Whether two character vectors are equal.
pub fn vec_eq(a: &Vec<char>, b: &Vec<char>) -> (r: bool)
    ensures
        r == (a@ == b@),
{
    if a.len() != b.len() {
        return false;
    }
    let mut i: usize = 0;
    while i < a.len()
        invariant
            a.len() == b.len(),
            i <= a.len(),
            forall|k: int| 0 <= k < i ==> a@[k] == b@[k],
        decreases a.len() - i,
    {
        if a[i] != b[i] {
            return false;
        }
        i += 1;
    }
    assert(a@ =~= b@);
    true
}

// ---------------------------------------------------------------------------
// Substring search
// ---------------------------------------------------------------------------

/// `p` occurs in `t` starting at position `i`.
pub open spec fn matches_at(t: Seq<char>, i: int, p: Seq<char>) -> bool {
    0 <= i && i + p.len() <= t.len() && t.subrange(i, i + p.len()) == p
}

/// The first position `>= i` where `p` occurs in `t`.
pub open spec fn find_from(t: Seq<char>, p: Seq<char>, i: int) -> Option<int>
    decreases t.len() + 1 - i,
{
    if i < 0 || i + p.len() > t.len() {
        None
    } else if matches_at(t, i, p) {
        Some(i)
    } else {
        find_from(t, p, i + 1)
    }
}

/// The first position where `p` occurs in `t`.
pub open spec fn find(t: Seq<char>, p: Seq<char>) -> Option<int> {
    find_from(t, p, 0)
}

/// `p` occurs somewhere in `t`.
pub open spec fn contains(t: Seq<char>, p: Seq<char>) -> bool {
    find(t, p) is Some
}

/// The last position `< k` where `p` occurs in `t`.
pub open spec fn rfind_below(t: Seq<char>, p: Seq<char>, k: int) -> Option<int>
    decreases k,
{
    if k <= 0 {
        None
    } else if matches_at(t, k - 1, p) {
        Some(k - 1)
    } else {
        rfind_below(t, p, k - 1)
    }
}

/// The last position where `p` occurs in `t`.
pub open spec fn rfind(t: Seq<char>, p: Seq<char>) -> Option<int> {
    rfind_below(t, p, (t.len() + 1) as int)
}

pub proof fn lemma_find_from(t: Seq<char>, p: Seq<char>, i: int)
    requires
        0 <= i,
    ensures
        match find_from(t, p, i) {
            Some(j) => i <= j && matches_at(t, j, p) && j + p.len() <= t.len() && forall|k: int|
                i <= k < j ==> !matches_at(t, k, p),
            None => forall|k: int| i <= k ==> !matches_at(t, k, p),
        },
    decreases t.len() + 1 - i,
{
    if i + p.len() > t.len() {
    } else if matches_at(t, i, p) {
    } else {
        lemma_find_from(t, p, i + 1);
    }
}

/// `find_from` is characterised by being a first match at or after `i`.
pub proof fn lemma_find_from_unique(t: Seq<char>, p: Seq<char>, i: int, j: int)
    requires
        0 <= i <= j,
        matches_at(t, j, p),
        forall|k: int| i <= k < j ==> !matches_at(t, k, p),
    ensures
        find_from(t, p, i) == Some(j),
    decreases j - i,
{
    if i < j {
        lemma_find_from_unique(t, p, i + 1, j);
    }
}

pub proof fn lemma_rfind_below(t: Seq<char>, p: Seq<char>, k: int)
    ensures
        match rfind_below(t, p, k) {
            Some(j) => 0 <= j < k && matches_at(t, j, p) && forall|m: int|
                j < m < k ==> !matches_at(t, m, p),
            None => forall|m: int| 0 <= m < k ==> !matches_at(t, m, p),
        },
    decreases k,
{
    if k <= 0 {
    } else if matches_at(t, k - 1, p) {
    } else {
        lemma_rfind_below(t, p, k - 1);
    }
}

/// Whether `p` occurs in `t` at position `i`.
pub fn matches_at_exec(t: &Vec<char>, i: usize, p: &Vec<char>) -> (r: bool)
    ensures
        r == matches_at(t@, i as int, p@),
{
    if i > t.len() || p.len() > t.len() - i {
        return false;
    }
    let mut k: usize = 0;
    while k < p.len()
        invariant
            i + p.len() <= t.len(),
            k <= p.len(),
            forall|m: int| 0 <= m < k ==> t@[i + m] == p@[m],
        decreases p.len() - k,
    {
        if t[i + k] != p[k] {
            assert(t@.subrange(i as int, i + p.len())[k as int] != p@[k as int]);
            return false;
        }
        k += 1;
    }
    assert(t@.subrange(i as int, i + p.len()) =~= p@);
    true
}

/// The first position `>= i` where `p` occurs in `t`.
pub fn find_from_exec(t: &Vec<char>, p: &Vec<char>, i: usize) -> (r: Option<usize>)
    ensures
        r matches Some(j) ==> find_from(t@, p@, i as int) == Some(j as int),
        r is None ==> find_from(t@, p@, i as int) is None,
{
    let mut k = i;
    while k <= t.len() && p.len() <= t.len() - k
        invariant
            i <= k,
            find_from(t@, p@, i as int) == find_from(t@, p@, k as int),
        decreases t.len() + 1 - k,
    {
        if matches_at_exec(t, k, p) {
            return Some(k);
        }
        proof {
            if p.len() == 0 {
                assert(t@.subrange(k as int, k as int) =~= p@);
            }
        }
        k += 1;
    }
    None
}

/// The first position where the characters of `p` occur in `t`.
pub fn find_str(t: &Vec<char>, p: &str, i: usize) -> (r: Option<usize>)
    ensures
        r matches Some(j) ==> find_from(t@, p@, i as int) == Some(j as int),
        r is None ==> find_from(t@, p@, i as int) is None,
{
    let pv = chars_of(p);
    find_from_exec(t, &pv, i)
}

/// The last position `< k` where `p` occurs in `t`.
pub fn rfind_below_exec(t: &Vec<char>, p: &Vec<char>, k: usize) -> (r: Option<usize>)
    ensures
        r matches Some(j) ==> rfind_below(t@, p@, k as int) == Some(j as int),
        r is None ==> rfind_below(t@, p@, k as int) is None,
{
    let mut m = k;
    while m > 0
        invariant
            m <= k,
            rfind_below(t@, p@, k as int) == rfind_below(t@, p@, m as int),
        decreases m,
    {
        if matches_at_exec(t, m - 1, p) {
            return Some(m - 1);
        }
        m -= 1;
    }
    None
}

/// The last position where the characters of `p` occur in `t`.
pub fn rfind_str(t: &Vec<char>, p: &str) -> (r: Option<usize>)
    ensures
        r matches Some(j) ==> rfind(t@, p@) == Some(j as int),
        r is None ==> rfind(t@, p@) is None,
{
    let pv = chars_of(p);
    if t.len() == usize::MAX {
        // `t.len() + 1` does not fit; no match can start at `t.len()` unless `p` is empty.
        let r = rfind_below_exec(t, &pv, t.len());
        proof {
            lemma_rfind_below(t@, pv@, t.len() as int);
            lemma_rfind_below(t@, pv@, t.len() + 1);
        }
        if pv.len() == 0 {
            proof {
                assert(matches_at(t@, t.len() as int, pv@)) by {
                    assert(t@.subrange(t.len() as int, t.len() as int) =~= pv@);
                }
            }
            return Some(t.len());
        }
        return r;
    }
    rfind_below_exec(t, &pv, t.len() + 1)
}

// ---------------------------------------------------------------------------
// Replacement
// ---------------------------------------------------------------------------

/// `t[i..]` with every non-overlapping occurrence of `from` (scanning left to
/// right) replaced by `to`.
pub open spec fn replace_from(t: Seq<char>, from: Seq<char>, to: Seq<char>, i: int) -> Seq<char>
    decreases t.len() + 1 - i,
{
    if i < 0 || from.len() == 0 || i > t.len() {
        t.subrange(if 0 <= i <= t.len() { i } else { t.len() as int }, t.len() as int)
    } else {
        match find_from(t, from, i) {
            None => t.subrange(i, t.len() as int),
            Some(j) => {
                proof {
                    lemma_find_from(t, from, i);
                }
                t.subrange(i, j) + to + replace_from(t, from, to, j + from.len())
            },
        }
    }
}

/// `t` with every non-overlapping occurrence of `from` replaced by `to`
/// (`str::replace` for a non-empty pattern).
pub open spec fn replace_all(t: Seq<char>, from: Seq<char>, to: Seq<char>) -> Seq<char> {
    replace_from(t, from, to, 0)
}

/// Law of `replace_all`: when each occurrence of `from` is replaced by
/// `from` followed by `q`, and the first character of `from` occurs neither
/// later in `from` nor anywhere in `q`, every occurrence of `from` in the
/// result is followed by `q` (no occurrence is left without it, and none is
/// made up across a seam).
pub proof fn lemma_replace_extends(t: Seq<char>, from: Seq<char>, q: Seq<char>)
    requires
        from.len() > 0,
        forall|k: int| 0 < k < from.len() ==> #[trigger] from[k] != from[0],
        forall|k: int| 0 <= k < q.len() ==> #[trigger] q[k] != from[0],
    ensures
        forall|x: int|
            #[trigger] matches_at(replace_all(t, from, from + q), x, from) ==> matches_at(
                replace_all(t, from, from + q),
                x + from.len(),
                q,
            ),
{
    lemma_replace_from_extends(t, from, q, 0);
}

proof fn lemma_replace_from_extends(t: Seq<char>, from: Seq<char>, q: Seq<char>, i: int)
    requires
        from.len() > 0,
        forall|k: int| 0 < k < from.len() ==> #[trigger] from[k] != from[0],
        forall|k: int| 0 <= k < q.len() ==> #[trigger] q[k] != from[0],
        0 <= i <= t.len(),
    ensures
        forall|x: int|
            #[trigger] matches_at(replace_from(t, from, from + q, i), x, from) ==> matches_at(
                replace_from(t, from, from + q, i),
                x + from.len(),
                q,
            ),
    decreases t.len() + 1 - i,
{
    let to = from + q;
    let r = replace_from(t, from, to, i);
    let L = from.len() as int;
    lemma_find_from(t, from, i);
    match find_from(t, from, i) {
        None => {
            assert(r == t.subrange(i, t.len() as int));
            assert forall|x: int| #[trigger] matches_at(r, x, from) implies matches_at(r, x + L, q) by {
                assert(t.subrange(i + x, i + x + L) =~= r.subrange(x, x + L));
                assert(matches_at(t, i + x, from));
            }
        },
        Some(j) => {
            let c = t.subrange(i, j);
            let rest = replace_from(t, from, to, j + L);
            lemma_replace_from_extends(t, from, q, j + L);
            assert(r == c + to + rest);
            let cl = c.len() as int;
            assert forall|x: int| #[trigger] matches_at(r, x, from) implies matches_at(r, x + L, q) by {
                assert(r.subrange(x, x + L)[0] == r[x]);
                assert(r[x] == from[0]);
                if x < cl {
                    if x + L <= cl {
                        assert(t.subrange(i + x, i + x + L) =~= r.subrange(x, x + L));
                        assert(matches_at(t, i + x, from));
                    } else {
                        let k = cl - x;
                        assert(r.subrange(x, x + L)[k] == r[cl]);
                        assert(r[cl] == to[0]);
                        assert(from[k] == from[0]);
                    }
                } else if x == cl {
                    assert(r.subrange(cl + L, cl + L + q.len()) =~= q);
                } else if x < cl + L + q.len() {
                    let d = x - cl;
                    assert(r[x] == to[d]);
                    if d < L {
                        assert(to[d] == from[d]);
                    } else {
                        assert(to[d] == q[d - L]);
                    }
                } else {
                    let y = x - (cl + L + q.len());
                    assert(rest.subrange(y, y + L) =~= r.subrange(x, x + L));
                    assert(matches_at(rest, y, from));
                    assert(matches_at(rest, y + L, q));
                    assert(r.subrange(x + L, x + L + q.len()) =~= rest.subrange(y + L, y + L + q.len()));
                }
            }
        },
    }
}

/// Law of `replace_all`: replacing `from` by `from` followed by `q` keeps a
/// property of another pattern `f1` that starts with the same character:
/// if every occurrence of `f1` in `t` is followed by `q1`, so is every
/// occurrence in the result. That first character must occur nowhere else in
/// `f1`, `from`, `q` or `q1`, and `f1` and `from` must differ at some position
/// `d` they both have.
pub proof fn lemma_replace_keeps_followers(
    t: Seq<char>,
    from: Seq<char>,
    q: Seq<char>,
    f1: Seq<char>,
    q1: Seq<char>,
    d: int,
)
    requires
        from.len() > 0,
        f1.len() > 0,
        f1[0] == from[0],
        0 <= d < f1.len() && d < from.len() && f1[d] != from[d],
        forall|k: int| 0 < k < from.len() ==> #[trigger] from[k] != from[0],
        forall|k: int| 0 < k < f1.len() ==> #[trigger] f1[k] != from[0],
        forall|k: int| 0 <= k < q.len() ==> #[trigger] q[k] != from[0],
        forall|k: int| 0 <= k < q1.len() ==> #[trigger] q1[k] != from[0],
        forall|x: int| #[trigger] matches_at(t, x, f1) ==> matches_at(t, x + f1.len(), q1),
    ensures
        forall|x: int|
            #[trigger] matches_at(replace_all(t, from, from + q), x, f1) ==> matches_at(
                replace_all(t, from, from + q),
                x + f1.len(),
                q1,
            ),
{
    lemma_replace_from_keeps(t, from, q, f1, q1, d, 0);
}

proof fn lemma_replace_from_keeps(
    t: Seq<char>,
    from: Seq<char>,
    q: Seq<char>,
    f1: Seq<char>,
    q1: Seq<char>,
    d: int,
    i: int,
)
    requires
        from.len() > 0,
        f1.len() > 0,
        f1[0] == from[0],
        0 <= d < f1.len() && d < from.len() && f1[d] != from[d],
        forall|k: int| 0 < k < from.len() ==> #[trigger] from[k] != from[0],
        forall|k: int| 0 < k < f1.len() ==> #[trigger] f1[k] != from[0],
        forall|k: int| 0 <= k < q.len() ==> #[trigger] q[k] != from[0],
        forall|k: int| 0 <= k < q1.len() ==> #[trigger] q1[k] != from[0],
        forall|x: int| #[trigger] matches_at(t, x, f1) ==> matches_at(t, x + f1.len(), q1),
        0 <= i <= t.len(),
    ensures
        forall|x: int|
            #[trigger] matches_at(replace_from(t, from, from + q, i), x, f1) ==> matches_at(
                replace_from(t, from, from + q, i),
                x + f1.len(),
                q1,
            ),
    decreases t.len() + 1 - i,
{
    let to = from + q;
    let r = replace_from(t, from, to, i);
    let L = f1.len() as int;
    let Q = q1.len() as int;
    lemma_find_from(t, from, i);
    match find_from(t, from, i) {
        None => {
            assert(r == t.subrange(i, t.len() as int));
            assert forall|x: int| #[trigger] matches_at(r, x, f1) implies matches_at(r, x + L, q1) by {
                assert(t.subrange(i + x, i + x + L) =~= r.subrange(x, x + L));
                assert(matches_at(t, i + x, f1));
                assert(matches_at(t, i + x + L, q1));
                assert(r.subrange(x + L, x + L + Q) =~= t.subrange(i + x + L, i + x + L + Q));
            }
        },
        Some(j) => {
            let c = t.subrange(i, j);
            let rest = replace_from(t, from, to, j + from.len());
            lemma_replace_from_keeps(t, from, q, f1, q1, d, j + from.len());
            assert(r == c + to + rest);
            let cl = c.len() as int;
            let tl = to.len() as int;
            assert forall|x: int| #[trigger] matches_at(r, x, f1) implies matches_at(r, x + L, q1) by {
                assert(r.subrange(x, x + L)[0] == r[x]);
                assert(r[x] == from[0]);
                if x < cl {
                    if x + L > cl {
                        let k = cl - x;
                        assert(r.subrange(x, x + L)[k] == r[cl]);
                        assert(r[cl] == to[0]);
                        assert(f1[k] == from[0]);
                    } else {
                        assert(t.subrange(i + x, i + x + L) =~= r.subrange(x, x + L));
                        assert(matches_at(t, i + x, f1));
                        assert(matches_at(t, i + x + L, q1));
                        if j < i + x + L + Q {
                            let e = j - (i + x + L);
                            assert(t.subrange(i + x + L, i + x + L + Q)[e] == t[j]);
                            assert(t.subrange(j, j + from.len())[0] == t[j]);
                            assert(q1[e] == from[0]);
                        }
                        assert(r.subrange(x + L, x + L + Q) =~= t.subrange(i + x + L, i + x + L + Q));
                    }
                } else if x == cl {
                    assert(r.subrange(x, x + L)[d] == r[x + d]);
                    assert(r[x + d] == to[d]);
                    assert(to[d] == from[d]);
                } else if x < cl + tl {
                    let e = x - cl;
                    assert(r[x] == to[e]);
                    if e < from.len() {
                        assert(to[e] == from[e]);
                    } else {
                        assert(to[e] == q[e - from.len()]);
                    }
                } else {
                    let y = x - (cl + tl);
                    assert(rest.subrange(y, y + L) =~= r.subrange(x, x + L));
                    assert(matches_at(rest, y, f1));
                    assert(matches_at(rest, y + L, q1));
                    assert(r.subrange(x + L, x + L + Q) =~= rest.subrange(y + L, y + L + Q));
                }
            }
        },
    }
}

proof fn lemma_find_from_shift(a: Seq<char>, b: Seq<char>, p: Seq<char>, i: int)
    requires
        0 <= i <= b.len(),
    ensures
        find_from(a + b, p, a.len() + i) == (match find_from(b, p, i) {
            Some(j) => Some(a.len() + j),
            None => None,
        }),
    decreases b.len() + 1 - i,
{
    let ab = a + b;
    let k = a.len() + i;
    if i + p.len() <= b.len() {
        assert(ab.subrange(k, k + p.len()) =~= b.subrange(i, i + p.len()));
        if p.len() == 0 {
            assert(b.subrange(i, i) =~= p);
        }
        if !matches_at(b, i, p) {
            lemma_find_from_shift(a, b, p, i + 1);
        }
    }
}

proof fn lemma_replace_from_shift(a: Seq<char>, b: Seq<char>, p: Seq<char>, r: Seq<char>, i: int)
    requires
        p.len() > 0,
        0 <= i <= b.len(),
    ensures
        replace_from(a + b, p, r, a.len() + i) == replace_from(b, p, r, i),
    decreases b.len() + 1 - i,
{
    let ab = a + b;
    let k = a.len() + i;
    lemma_find_from_shift(a, b, p, i);
    lemma_find_from(b, p, i);
    match find_from(b, p, i) {
        None => {
            assert(ab.subrange(k, ab.len() as int) =~= b.subrange(i, b.len() as int));
        },
        Some(j) => {
            assert(ab.subrange(k, a.len() + j) =~= b.subrange(i, j));
            lemma_replace_from_shift(a, b, p, r, j + p.len());
        },
    }
}

/// Law of `replace_all`: under the conditions of `lemma_replace_extends`,
/// the replacement is undone by replacing `from + q` back by `from`: nothing
/// is lost, duplicated or changed besides the inserted `q`s.
pub proof fn lemma_replace_extends_undone(t: Seq<char>, from: Seq<char>, q: Seq<char>)
    requires
        from.len() > 0,
        forall|k: int| 0 < k < from.len() ==> #[trigger] from[k] != from[0],
        forall|k: int| 0 <= k < q.len() ==> #[trigger] q[k] != from[0],
    ensures
        replace_all(replace_all(t, from, from + q), from + q, from) == t,
{
    lemma_replace_from_undone(t, from, q, 0);
    assert(t.subrange(0, t.len() as int) =~= t);
}

proof fn lemma_replace_from_undone(t: Seq<char>, from: Seq<char>, q: Seq<char>, i: int)
    requires
        from.len() > 0,
        forall|k: int| 0 < k < from.len() ==> #[trigger] from[k] != from[0],
        forall|k: int| 0 <= k < q.len() ==> #[trigger] q[k] != from[0],
        0 <= i <= t.len(),
    ensures
        replace_all(replace_from(t, from, from + q, i), from + q, from) == t.subrange(i, t.len() as int),
    decreases t.len() + 1 - i,
{
    let to = from + q;
    let r = replace_from(t, from, to, i);
    let L = from.len() as int;
    lemma_find_from(t, from, i);
    lemma_find_from(r, to, 0);
    match find_from(t, from, i) {
        None => {
            assert(r == t.subrange(i, t.len() as int));
            if let Some(k) = find_from(r, to, 0) {
                assert(r.subrange(k, k + L) =~= r.subrange(k, k + to.len()).take(L));
                assert(to.take(L) =~= from);
                assert(t.subrange(i + k, i + k + L) =~= r.subrange(k, k + L));
                assert(matches_at(t, i + k, from));
            }
            assert(r.subrange(0, r.len() as int) =~= r);
        },
        Some(j) => {
            let c = t.subrange(i, j);
            let rest = replace_from(t, from, to, j + L);
            let cl = c.len() as int;
            assert(r == c + to + rest);
            assert(r.subrange(cl, cl + to.len()) =~= to);
            assert forall|k: int| 0 <= k < cl implies !#[trigger] matches_at(r, k, to) by {
                if matches_at(r, k, to) {
                    assert(r.subrange(k, k + to.len())[0] == r[k]);
                    assert(r[k] == from[0]);
                    if k + L <= cl {
                        assert(r.subrange(k, k + L) =~= r.subrange(k, k + to.len()).take(L));
                        assert(to.take(L) =~= from);
                        assert(t.subrange(i + k, i + k + L) =~= r.subrange(k, k + L));
                        assert(matches_at(t, i + k, from));
                    } else {
                        let e = cl - k;
                        assert(r.subrange(k, k + to.len())[e] == r[cl]);
                        assert(r[cl] == to[0]);
                        assert(to[e] == from[e]);
                    }
                }
            }
            lemma_find_from_unique(r, to, 0, cl);
            lemma_replace_from_undone(t, from, q, j + L);
            lemma_replace_from_shift(c + to, rest, to, from, 0);
            assert((c + to) + rest == r);
            assert(rest.subrange(0, rest.len() as int) =~= rest);
            assert(r.subrange(0, cl) =~= c);
            assert(t.subrange(j, j + L) =~= from);
            assert(t.subrange(i, t.len() as int) =~= c + from + t.subrange(j + L, t.len() as int));
        },
    }
}

/// Replaces every occurrence of `from` in `t` with `to`.
pub fn replace_vec(t: &Vec<char>, from: &Vec<char>, to: &Vec<char>) -> (res: Vec<char>)
    requires
        from.len() > 0,
    ensures
        res@ == replace_all(t@, from@, to@),
{
    let mut out: Vec<char> = Vec::new();
    let mut i: usize = 0;
    while i <= t.len()
        invariant
            from.len() > 0,
            i <= t.len() + 1,
            i <= t.len() ==> replace_all(t@, from@, to@) == out@ + replace_from(t@, from@, to@, i as int),
            i > t.len() ==> replace_all(t@, from@, to@) == out@,
        decreases t.len() + 1 - i,
    {
        match find_from_exec(t, from, i) {
            None => {
                push_range(&mut out, t, i, t.len());
                return out;
            },
            Some(j) => {
                proof {
                    lemma_find_from(t@, from@, i as int);
                }
                push_range(&mut out, t, i, j);
                push_all(&mut out, to);
                i = j + from.len();
                proof {
                    assert(i <= t.len());
                }
            },
        }
    }
    out
}

/// Replaces every occurrence of `from` in `t` with `to`.
pub fn replace_str(t: &Vec<char>, from: &str, to: &str) -> (res: Vec<char>)
    requires
        from@.len() > 0,
    ensures
        res@ == replace_all(t@, from@, to@),
{
    let f = chars_of(from);
    let g = chars_of(to);
    replace_vec(t, &f, &g)
}

// ---------------------------------------------------------------------------
// Character classes
// ---------------------------------------------------------------------------

/// Unicode `White_Space` (what `char::is_whitespace` tests).
pub open spec fn is_ws(c: char) -> bool {
    ||| ('\u{9}' <= c <= '\u{d}')
    ||| c == ' '
    ||| c == '\u{85}'
    ||| c == '\u{a0}'
    ||| c == '\u{1680}'
    ||| ('\u{2000}' <= c <= '\u{200a}')
    ||| c == '\u{2028}'
    ||| c == '\u{2029}'
    ||| c == '\u{202f}'
    ||| c == '\u{205f}'
    ||| c == '\u{3000}'
}

pub fn is_ws_exec(c: char) -> (r: bool)
    ensures
        r == is_ws(c),
{
    ('\u{9}' <= c && c <= '\u{d}') || c == ' ' || c == '\u{85}' || c == '\u{a0}' || c
        == '\u{1680}' || ('\u{2000}' <= c && c <= '\u{200a}') || c == '\u{2028}' || c
        == '\u{2029}' || c == '\u{202f}' || c == '\u{205f}' || c == '\u{3000}'
}

/// ASCII whitespace (what `u8::is_ascii_whitespace` tests).
pub open spec fn is_ascii_ws(c: char) -> bool {
    c == ' ' || c == '\t' || c == '\n' || c == '\u{c}' || c == '\r'
}

pub open spec fn is_ascii_upper(c: char) -> bool {
    'A' <= c <= 'Z'
}

pub open spec fn is_ascii_lower(c: char) -> bool {
    'a' <= c <= 'z'
}

pub open spec fn is_ascii_alpha(c: char) -> bool {
    is_ascii_upper(c) || is_ascii_lower(c)
}

pub open spec fn is_ascii_digit(c: char) -> bool {
    '0' <= c <= '9'
}

pub open spec fn is_ascii_alnum(c: char) -> bool {
    is_ascii_alpha(c) || is_ascii_digit(c)
}

/// `char::to_ascii_lowercase`.
pub open spec fn ascii_lower(c: char) -> char {
    if is_ascii_upper(c) {
        ((c as int) + 32) as char
    } else {
        c
    }
}

pub fn ascii_lower_exec(c: char) -> (r: char)
    ensures
        r == ascii_lower(c),
{
    if 'A' <= c && c <= 'Z' {
        let n: u8 = (c as u8) + 32;
        n as char
    } else {
        c
    }
}

/// `char::to_ascii_uppercase`.
pub open spec fn ascii_upper(c: char) -> char {
    if is_ascii_lower(c) {
        ((c as int) - 32) as char
    } else {
        c
    }
}

pub fn ascii_upper_exec(c: char) -> (r: char)
    ensures
        r == ascii_upper(c),
{
    if 'a' <= c && c <= 'z' {
        let n: u8 = (c as u8) - 32;
        n as char
    } else {
        c
    }
}

/// `str::to_ascii_uppercase`.
pub open spec fn ascii_upper_seq(s: Seq<char>) -> Seq<char> {
    s.map_values(|c: char| ascii_upper(c))
}

pub fn ascii_upper_vec(t: &Vec<char>) -> (res: Vec<char>)
    ensures
        res@ == ascii_upper_seq(t@),
{
    let mut res: Vec<char> = Vec::new();
    let mut i: usize = 0;
    while i < t.len()
        invariant
            i <= t.len(),
            res@ == ascii_upper_seq(t@.take(i as int)),
        decreases t.len() - i,
    {
        let c = ascii_upper_exec(t[i]);
        res.push(c);
        assert(ascii_upper_seq(t@.take(i + 1)) =~= ascii_upper_seq(t@.take(i as int)).push(c));
        i += 1;
    }
    assert(t@.take(t.len() as int) =~= t@);
    res
}

/// `str::to_ascii_lowercase`.
pub open spec fn ascii_lower_seq(s: Seq<char>) -> Seq<char> {
    s.map_values(|c: char| ascii_lower(c))
}

pub fn ascii_lower_vec(t: &Vec<char>) -> (res: Vec<char>)
    ensures
        res@ == ascii_lower_seq(t@),
{
    let mut res: Vec<char> = Vec::new();
    let mut i: usize = 0;
    while i < t.len()
        invariant
            i <= t.len(),
            res@ == ascii_lower_seq(t@.take(i as int)),
        decreases t.len() - i,
    {
        let c = ascii_lower_exec(t[i]);
        res.push(c);
        assert(ascii_lower_seq(t@.take(i + 1)) =~= ascii_lower_seq(t@.take(i as int)).push(c));
        i += 1;
    }
    assert(t@.take(t.len() as int) =~= t@);
    res
}

// ---------------------------------------------------------------------------
// Trimming
// ---------------------------------------------------------------------------

/// The number of leading characters of `s` that satisfy `is_ws`.
pub open spec fn ws_prefix_len(s: Seq<char>) -> nat
    decreases s.len(),
{
    if s.len() > 0 && is_ws(s[0]) {
        1 + ws_prefix_len(s.drop_first())
    } else {
        0
    }
}

/// The number of trailing characters of `s` that satisfy `is_ws`.
pub open spec fn ws_suffix_len(s: Seq<char>) -> nat
    decreases s.len(),
{
    if s.len() > 0 && is_ws(s.last()) {
        1 + ws_suffix_len(s.drop_last())
    } else {
        0
    }
}

/// `str::trim_start`.
pub open spec fn trim_start(s: Seq<char>) -> Seq<char> {
    s.skip(ws_prefix_len(s) as int)
}

/// `str::trim_end`.
pub open spec fn trim_end(s: Seq<char>) -> Seq<char> {
    s.take(s.len() - ws_suffix_len(s))
}

/// `str::trim`.
pub open spec fn trim(s: Seq<char>) -> Seq<char> {
    trim_end(trim_start(s))
}

pub proof fn lemma_ws_prefix_len(s: Seq<char>)
    ensures
        ws_prefix_len(s) <= s.len(),
        forall|k: int| 0 <= k < ws_prefix_len(s) ==> is_ws(s[k]),
        ws_prefix_len(s) < s.len() ==> !is_ws(s[ws_prefix_len(s) as int]),
    decreases s.len(),
{
    if s.len() > 0 && is_ws(s[0]) {
        lemma_ws_prefix_len(s.drop_first());
        assert forall|k: int| 0 <= k < ws_prefix_len(s) implies is_ws(s[k]) by {
            if k > 0 {
                assert(s[k] == s.drop_first()[k - 1]);
            }
        }
    }
}

pub proof fn lemma_ws_suffix_len(s: Seq<char>)
    ensures
        ws_suffix_len(s) <= s.len(),
        forall|k: int| s.len() - ws_suffix_len(s) <= k < s.len() ==> is_ws(s[k]),
        ws_suffix_len(s) < s.len() ==> !is_ws(s[s.len() - ws_suffix_len(s) - 1]),
    decreases s.len(),
{
    if s.len() > 0 && is_ws(s.last()) {
        lemma_ws_suffix_len(s.drop_last());
        assert forall|k: int| s.len() - ws_suffix_len(s) <= k < s.len() implies is_ws(s[k]) by {
            if k < s.len() - 1 {
                assert(s[k] == s.drop_last()[k]);
            }
        }
    }
}

/// `ws_prefix_len` is determined by the first non-whitespace position.
pub proof fn lemma_ws_prefix_len_is(s: Seq<char>, n: int)
    requires
        0 <= n <= s.len(),
        forall|k: int| 0 <= k < n ==> is_ws(s[k]),
        n < s.len() ==> !is_ws(s[n]),
    ensures
        ws_prefix_len(s) == n,
    decreases n,
{
    if n > 0 {
        lemma_ws_prefix_len_is(s.drop_first(), n - 1);
    }
}

/// `ws_suffix_len` is determined by the last non-whitespace position.
pub proof fn lemma_ws_suffix_len_is(s: Seq<char>, n: int)
    requires
        0 <= n <= s.len(),
        forall|k: int| s.len() - n <= k < s.len() ==> is_ws(s[k]),
        n < s.len() ==> !is_ws(s[s.len() - n - 1]),
    ensures
        ws_suffix_len(s) == n,
    decreases n,
{
    if n > 0 {
        lemma_ws_suffix_len_is(s.drop_last(), n - 1);
    }
}

/// Trimming twice is trimming once.
pub proof fn lemma_trim_idempotent(x: Seq<char>)
    ensures
        trim(trim(x)) == trim(x),
{
    let a = trim_start(x);
    lemma_ws_prefix_len(x);
    lemma_ws_suffix_len(a);
    let y = trim(x);
    if y.len() > 0 {
        assert(y[0] == a[0]);
        assert(!is_ws(y[0]));
        assert(y.last() == a[a.len() - ws_suffix_len(a) - 1]);
        assert(!is_ws(y.last()));
    }
    assert(ws_prefix_len(y) == 0);
    assert(trim_start(y) =~= y);
    assert(ws_suffix_len(y) == 0);
    assert(trim_end(y) =~= y);
}

/// The bounds `(lo, hi)` of `trim(t[a..b])` inside `t`.
pub fn trim_bounds(t: &Vec<char>, a: usize, b: usize) -> (r: (usize, usize))
    requires
        a <= b <= t.len(),
    ensures
        a <= r.0 <= r.1 <= b,
        t@.subrange(r.0 as int, r.1 as int) == trim(t@.subrange(a as int, b as int)),
        t@.subrange(r.0 as int, b as int) == trim_start(t@.subrange(a as int, b as int)),
{
    let ghost s = t@.subrange(a as int, b as int);
    let mut lo = a;
    while lo < b && is_ws_exec(t[lo])
        invariant
            a <= lo <= b <= t.len(),
            s == t@.subrange(a as int, b as int),
            forall|k: int| a <= k < lo ==> is_ws(t@[k]),
        decreases b - lo,
    {
        lo += 1;
    }
    proof {
        lemma_ws_prefix_len_is(s, lo - a);
        assert(trim_start(s) =~= t@.subrange(lo as int, b as int));
    }
    let mut hi = b;
    while hi > lo && is_ws_exec(t[hi - 1])
        invariant
            a <= lo <= hi <= b <= t.len(),
            forall|k: int| hi <= k < b ==> is_ws(t@[k]),
        decreases hi,
    {
        hi -= 1;
    }
    proof {
        let ts = t@.subrange(lo as int, b as int);
        lemma_ws_suffix_len_is(ts, b - hi);
        assert(trim_end(ts) =~= t@.subrange(lo as int, hi as int));
    }
    (lo, hi)
}

/// `trim(t)` as a fresh vector.
pub fn trim_vec(t: &Vec<char>) -> (res: Vec<char>)
    ensures
        res@ == trim(t@),
{
    let (lo, hi) = trim_bounds(t, 0, t.len());
    assert(t@.subrange(0, t.len() as int) =~= t@);
    slice_vec(t, lo, hi)
}

// ---------------------------------------------------------------------------
// Decimal rendering
// ---------------------------------------------------------------------------

pub open spec fn digit_char(d: nat) -> char {
    ((d % 10) as int + 48) as char
}

/// The decimal rendering of `n`, as `Display` writes it.
pub open spec fn decimal(n: nat) -> Seq<char>
    decreases n,
{
    if n < 10 {
        seq![digit_char(n)]
    } else {
        decimal(n / 10).push(digit_char(n % 10))
    }
}

/// Every character of a decimal rendering is an ASCII digit.
pub proof fn lemma_decimal_is_digits(n: nat)
    ensures
        forall|k: int| 0 <= k < decimal(n).len() ==> is_ascii_digit(#[trigger] decimal(n)[k]),
    decreases n,
{
    let k = n % 10;
    assert(((k as int + 48) as char) as int == k + 48);
    assert(is_ascii_digit(digit_char(n)));
    if n >= 10 {
        lemma_decimal_is_digits(n / 10);
        assert(decimal(n) == decimal(n / 10).push(digit_char(n % 10)));
        assert(digit_char(n % 10) == digit_char(n));
    } else {
        assert(decimal(n) == seq![digit_char(n)]);
    }
}

/// The decimal rendering of `n`.
pub fn decimal_vec(n: u64) -> (res: Vec<char>)
    ensures
        res@ == decimal(n as nat),
    decreases n,
{
    let d: u32 = (n % 10) as u32 + 48;
    let c: char = if d == 48 { '0' } else if d == 49 { '1' } else if d == 50 { '2' } else if d
        == 51 { '3' } else if d == 52 { '4' } else if d == 53 { '5' } else if d == 54 { '6' } else if d
        == 55 { '7' } else if d == 56 { '8' } else { '9' };
    assert(c == digit_char(n as nat));
    if n < 10 {
        let mut v: Vec<char> = Vec::new();
        v.push(c);
        assert(v@ =~= seq![c]);
        v
    } else {
        let mut v = decimal_vec(n / 10);
        v.push(c);
        proof {
            assert(digit_char((n % 10) as nat) == digit_char(n as nat));
        }
        v
    }
}

// ---------------------------------------------------------------------------
// UTF-8 length
// ---------------------------------------------------------------------------

/// The number of bytes `c` takes in UTF-8.
pub open spec fn utf8_width(c: char) -> nat {
    if (c as u32) < 0x80 {
        1
    } else if (c as u32) < 0x800 {
        2
    } else if (c as u32) < 0x10000 {
        3
    } else {
        4
    }
}

/// The number of bytes `s` takes in UTF-8 (`str::len`).
pub open spec fn utf8_len(s: Seq<char>) -> nat
    decreases s.len(),
{
    if s.len() == 0 {
        0
    } else {
        utf8_len(s.drop_last()) + utf8_width(s.last())
    }
}

pub proof fn lemma_utf8_len_prefix(s: Seq<char>, i: int)
    requires
        0 <= i <= s.len(),
    ensures
        utf8_len(s.take(i)) <= utf8_len(s),
    decreases s.len(),
{
    if i == s.len() {
        assert(s.take(i) =~= s);
    } else {
        assert(s.drop_last().take(i) =~= s.take(i));
        lemma_utf8_len_prefix(s.drop_last(), i);
    }
}

/// Whether `t` takes exactly `n` bytes in UTF-8.
pub fn utf8_len_is(t: &Vec<char>, n: usize) -> (r: bool)
    requires
        n < 0x1000_0000,
    ensures
        r == (utf8_len(t@) == n),
{
    let mut acc: usize = 0;
    let mut i: usize = 0;
    while i < t.len()
        invariant
            i <= t.len(),
            n < 0x1000_0000,
            acc <= n,
            acc == utf8_len(t@.take(i as int)),
        decreases t.len() - i,
    {
        let code = t[i] as u32;
        let w: usize = if code < 0x80 {
            1
        } else if code < 0x800 {
            2
        } else if code < 0x10000 {
            3
        } else {
            4
        };
        assert(t@.take(i + 1).drop_last() =~= t@.take(i as int));
        acc = acc + w;
        i += 1;
        if acc > n {
            proof {
                lemma_utf8_len_prefix(t@, i as int);
            }
            return false;
        }
    }
    assert(t@.take(t.len() as int) =~= t@);
    acc == n
}

/// Whether `t` takes fewer than `n` bytes in UTF-8.
pub fn utf8_len_below(t: &Vec<char>, n: usize) -> (r: bool)
    requires
        n < 0x1000_0000,
    ensures
        r == (utf8_len(t@) < n),
{
    let mut acc: usize = 0;
    let mut i: usize = 0;
    while i < t.len()
        invariant
            i <= t.len(),
            n < 0x1000_0000,
            acc < n || n == 0,
            acc == utf8_len(t@.take(i as int)),
        decreases t.len() - i,
    {
        if n == 0 {
            return false;
        }
        let code = t[i] as u32;
        let w: usize = if code < 0x80 {
            1
        } else if code < 0x800 {
            2
        } else if code < 0x10000 {
            3
        } else {
            4
        };
        assert(t@.take(i + 1).drop_last() =~= t@.take(i as int));
        acc = acc + w;
        i += 1;
        if acc >= n {
            proof {
                lemma_utf8_len_prefix(t@, i as int);
            }
            return false;
        }
    }
    assert(t@.take(t.len() as int) =~= t@);
    acc < n
}

} // verus!
