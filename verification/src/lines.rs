//! Line structure of card bodies: `//` comments, the `// name:` directive and
//! the slug it names.
use vstd::prelude::*;
use crate::text::{
    ascii_lower, ascii_lower_exec, chars_of, contains, find_from, find_from_exec, find_str,
    is_ascii_alnum, is_ascii_upper, lemma_find_from, push_all, push_range, slice_vec, string_of,
    trim, trim_bounds,
};

verus! {

// ---------------------------------------------------------------------------
// `//` line comments
// ---------------------------------------------------------------------------

/// The end of the comment starting at `i`: the next `\n` at or after `i`, or
/// the end of `s`.
pub open spec fn line_end_from(s: Seq<char>, i: int) -> int {
    match find_from(s, seq!['\n'], i) {
        Some(j) => j,
        None => s.len() as int,
    }
}

/// The scan behind `strip_line_comments`: `s[i..]` with every `//` comment
/// outside a `"…"` literal removed up to (not including) its newline.
pub open spec fn strip_scan(s: Seq<char>, i: int, in_str: bool) -> Seq<char>
    decreases s.len() + 1 - i,
{
    if i < 0 || i >= s.len() {
        seq![]
    } else if in_str {
        if s[i] == '\\' {
            s.subrange(i, if i + 2 <= s.len() { i + 2 } else { s.len() as int }) + strip_scan(
                s,
                i + 2,
                true,
            )
        } else if s[i] == '"' {
            seq![s[i]] + strip_scan(s, i + 1, false)
        } else {
            seq![s[i]] + strip_scan(s, i + 1, true)
        }
    } else if s[i] == '"' {
        seq![s[i]] + strip_scan(s, i + 1, true)
    } else if s[i] == '/' && i + 1 < s.len() && s[i + 1] == '/' {
        proof {
            lemma_find_from(s, seq!['\n'], i + 2);
        }
        strip_scan(s, line_end_from(s, i + 2), false)
    } else {
        seq![s[i]] + strip_scan(s, i + 1, false)
    }
}

/// `s` without its `//` line comments (those outside string literals).
pub open spec fn strip_comments_spec(s: Seq<char>) -> Seq<char> {
    strip_scan(s, 0, false)
}

/// The number of newlines in `s`.
pub open spec fn newline_count(s: Seq<char>) -> nat
    decreases s.len(),
{
    if s.len() == 0 {
        0
    } else {
        newline_count(s.drop_last()) + if s.last() == '\n' {
            1nat
        } else {
            0nat
        }
    }
}

pub proof fn lemma_newline_count_add(a: Seq<char>, b: Seq<char>)
    ensures
        newline_count(a + b) == newline_count(a) + newline_count(b),
    decreases b.len(),
{
    if b.len() == 0 {
        assert(a + b =~= a);
    } else {
        lemma_newline_count_add(a, b.drop_last());
        assert((a + b).drop_last() =~= a + b.drop_last());
    }
}

pub proof fn lemma_newline_count_none(s: Seq<char>)
    requires
        forall|k: int| 0 <= k < s.len() ==> s[k] != '\n',
    ensures
        newline_count(s) == 0,
    decreases s.len(),
{
    if s.len() > 0 {
        lemma_newline_count_none(s.drop_last());
    }
}

proof fn lemma_strip_scan_len(s: Seq<char>, i: int, in_str: bool)
    ensures
        0 <= i <= s.len() ==> strip_scan(s, i, in_str).len() <= s.len() - i,
        i > s.len() ==> strip_scan(s, i, in_str).len() == 0,
    decreases s.len() + 1 - i,
{
    if i < 0 || i >= s.len() {
    } else if in_str {
        if s[i] == '\\' {
            lemma_strip_scan_len(s, i + 2, true);
        } else if s[i] == '"' {
            lemma_strip_scan_len(s, i + 1, false);
        } else {
            lemma_strip_scan_len(s, i + 1, true);
        }
    } else if s[i] == '"' {
        lemma_strip_scan_len(s, i + 1, true);
    } else if s[i] == '/' && i + 1 < s.len() && s[i + 1] == '/' {
        lemma_find_from(s, seq!['\n'], i + 2);
        lemma_strip_scan_len(s, line_end_from(s, i + 2), false);
    } else {
        lemma_strip_scan_len(s, i + 1, false);
    }
}

/// Stripping comments never lengthens a body.
pub proof fn lemma_strip_comments_len(s: Seq<char>)
    ensures
        strip_comments_spec(s).len() <= s.len(),
{
    lemma_strip_scan_len(s, 0, false);
}

proof fn lemma_strip_scan_newlines(s: Seq<char>, i: int, in_str: bool)
    requires
        0 <= i,
    ensures
        newline_count(strip_scan(s, i, in_str)) == newline_count(
            s.subrange(if i <= s.len() { i } else { s.len() as int }, s.len() as int),
        ),
    decreases s.len() + 1 - i,
{
    let n = s.len() as int;
    if i >= s.len() {
        let lo = if i <= n { i } else { n };
        assert(s.subrange(lo, n) =~= Seq::<char>::empty());
    } else {
        let rest = s.subrange(i, n);
        if in_str && s[i] == '\\' {
            let mid = if i + 2 <= n { i + 2 } else { n };
            lemma_strip_scan_newlines(s, i + 2, true);
            assert(rest =~= s.subrange(i, mid) + s.subrange(mid, n));
            lemma_newline_count_add(s.subrange(i, mid), s.subrange(mid, n));
            lemma_newline_count_add(s.subrange(i, mid), strip_scan(s, i + 2, true));
        } else if !in_str && s[i] == '/' && i + 1 < n && s[i + 1] == '/' {
            lemma_find_from(s, seq!['\n'], i + 2);
            let j = line_end_from(s, i + 2);
            lemma_strip_scan_newlines(s, j, false);
            assert(rest =~= s.subrange(i, j) + s.subrange(j, n));
            lemma_newline_count_add(s.subrange(i, j), s.subrange(j, n));
            assert forall|k: int| 0 <= k < s.subrange(i, j).len() implies s.subrange(i, j)[k]
                != '\n' by {
                if k >= 2 {
                    if s[i + k] == '\n' {
                        assert(s.subrange(i + k, i + k + 1) =~= seq!['\n']);
                        assert(crate::text::matches_at(s, i + k, seq!['\n']));
                    }
                }
            }
            lemma_newline_count_none(s.subrange(i, j));
        } else {
            let next_str = if in_str {
                s[i] != '"'
            } else {
                s[i] == '"'
            };
            lemma_strip_scan_newlines(s, i + 1, next_str);
            assert(rest =~= seq![s[i]] + s.subrange(i + 1, n));
            lemma_newline_count_add(seq![s[i]], s.subrange(i + 1, n));
            lemma_newline_count_add(seq![s[i]], strip_scan(s, i + 1, next_str));
            assert(seq![s[i]].drop_last() =~= Seq::<char>::empty());
        }
    }
}

/// Stripping comments keeps every line break, so line numbers are preserved.
pub proof fn lemma_strip_comments_keeps_newlines(s: Seq<char>)
    ensures
        newline_count(strip_comments_spec(s)) == newline_count(s),
{
    lemma_strip_scan_newlines(s, 0, false);
    assert(s.subrange(0, s.len() as int) =~= s);
}

pub fn strip_comments_vec(t: &Vec<char>) -> (res: Vec<char>)
    ensures
        res@ == strip_comments_spec(t@),
{
    let mut nl: Vec<char> = Vec::new();
    nl.push('\n');
    assert(nl@ =~= seq!['\n']);
    let mut out: Vec<char> = Vec::new();
    let mut i: usize = 0;
    let mut in_str = false;
    while i < t.len()
        invariant
            nl@ == seq!['\n'],
            i <= t.len() + 1,
            strip_comments_spec(t@) == out@ + strip_scan(t@, i as int, in_str),
        decreases t.len() + 1 - i,
    {
        let c = t[i];
        if in_str {
            if c == '\\' {
                if i + 1 < t.len() {
                    push_range(&mut out, t, i, i + 2);
                    i += 2;
                } else {
                    push_range(&mut out, t, i, i + 1);
                    i = t.len();
                    proof {
                        assert(strip_scan(t@, i + 1, true) == Seq::<char>::empty());
                    }
                }
                continue;
            }
            if c == '"' {
                in_str = false;
            }
            out.push(c);
            i += 1;
            continue;
        }
        if c == '"' {
            in_str = true;
            out.push(c);
            i += 1;
        } else if c == '/' && i + 1 < t.len() && t[i + 1] == '/' {
            proof {
                lemma_find_from(t@, nl@, i + 2);
            }
            i = match find_from_exec(t, &nl, i + 2) {
                Some(j) => j,
                None => t.len(),
            };
        } else {
            out.push(c);
            i += 1;
        }
    }
    proof {
        assert(strip_scan(t@, i as int, in_str) == Seq::<char>::empty());
        assert(out@ + Seq::<char>::empty() =~= out@);
    }
    out
}

/// Removes `//`-to-end-of-line comments that are not inside a string literal,
/// keeping newlines and string contents (including `://` in a quoted URL).
pub fn strip_line_comments(body: &str) -> (res: String)
    ensures
        res@ == strip_comments_spec(body@),
{
    let t = chars_of(body);
    let r = strip_comments_vec(&t);
    string_of(&r)
}

// ---------------------------------------------------------------------------
// Lines
// ---------------------------------------------------------------------------

/// `l` without one trailing `\r`.
pub open spec fn strip_cr(l: Seq<char>) -> Seq<char> {
    if l.len() > 0 && l.last() == '\r' {
        l.drop_last()
    } else {
        l
    }
}

/// `str::lines` of `s[i..]`: split at `\n` (a `\r` before it dropped), with no
/// empty last line after a final newline.
pub open spec fn lines_from(s: Seq<char>, i: int) -> Seq<Seq<char>>
    decreases s.len() - i,
{
    if i < 0 || i >= s.len() {
        seq![]
    } else {
        match find_from(s, seq!['\n'], i) {
            None => seq![s.subrange(i, s.len() as int)],
            Some(j) => {
                proof {
                    lemma_find_from(s, seq!['\n'], i);
                }
                seq![strip_cr(s.subrange(i, j))] + lines_from(s, j + 1)
            },
        }
    }
}

/// `str::lines`.
pub open spec fn lines_spec(s: Seq<char>) -> Seq<Seq<char>> {
    lines_from(s, 0)
}

/// Lines joined with `\n`.
pub open spec fn join_lines(ls: Seq<Seq<char>>) -> Seq<char>
    decreases ls.len(),
{
    if ls.len() == 0 {
        seq![]
    } else if ls.len() == 1 {
        ls[0]
    } else {
        join_lines(ls.drop_last()) + seq!['\n'] + ls.last()
    }
}

pub open spec fn vec_views(v: Seq<Vec<char>>) -> Seq<Seq<char>> {
    v.map_values(|x: Vec<char>| x@)
}

/// The lines of `t`.
pub fn lines_vec(t: &Vec<char>) -> (res: Vec<Vec<char>>)
    ensures
        vec_views(res@) == lines_spec(t@),
{
    let mut nl: Vec<char> = Vec::new();
    nl.push('\n');
    assert(nl@ =~= seq!['\n']);
    let mut res: Vec<Vec<char>> = Vec::new();
    let mut i: usize = 0;
    while i < t.len()
        invariant
            nl@ == seq!['\n'],
            i <= t.len(),
            lines_spec(t@) == vec_views(res@) + lines_from(t@, i as int),
        decreases t.len() - i,
    {
        let ghost before = res@;
        match find_from_exec(t, &nl, i) {
            None => {
                let l = slice_vec(t, i, t.len());
                res.push(l);
                proof {
                    assert(vec_views(res@) =~= vec_views(before) + seq![t@.subrange(i as int, t.len() as int)]);
                    assert(lines_from(t@, t.len() as int) == Seq::<Seq<char>>::empty());
                    assert(vec_views(res@) + Seq::<Seq<char>>::empty() =~= vec_views(res@));
                }
                return res;
            },
            Some(j) => {
                proof {
                    lemma_find_from(t@, nl@, i as int);
                }
                let hi = if j > i && t[j - 1] == '\r' {
                    j - 1
                } else {
                    j
                };
                let l = slice_vec(t, i, hi);
                proof {
                    assert(l@ =~= strip_cr(t@.subrange(i as int, j as int)));
                }
                res.push(l);
                proof {
                    assert(vec_views(res@) =~= vec_views(before) + seq![strip_cr(t@.subrange(i as int, j as int))]);
                }
                i = j + 1;
            },
        }
    }
    proof {
        assert(vec_views(res@) + Seq::<Seq<char>>::empty() =~= vec_views(res@));
    }
    res
}

/// Appends `join_lines(ls)` to `out`.
fn push_joined(out: &mut Vec<char>, ls: &Vec<Vec<char>>)
    ensures
        final(out)@ == old(out)@ + join_lines(vec_views(ls@)),
{
    let mut k: usize = 0;
    let ghost start = out@;
    while k < ls.len()
        invariant
            k <= ls.len(),
            out@ == start + join_lines(vec_views(ls@).take(k as int)),
        decreases ls.len() - k,
    {
        let ghost before = out@;
        if k > 0 {
            out.push('\n');
        }
        push_all(out, &ls[k]);
        proof {
            let v = vec_views(ls@);
            assert(v.take(k + 1).drop_last() =~= v.take(k as int));
            assert(v.take(k + 1).last() == ls@[k as int]@);
            if k == 0 {
                assert(join_lines(v.take(1)) == v.take(1)[0]);
            }
            assert(out@ =~= start + join_lines(v.take(k + 1)));
        }
        k += 1;
    }
    assert(vec_views(ls@).take(ls.len() as int) =~= vec_views(ls@));
}

// ---------------------------------------------------------------------------
// The `// name:` directive
// ---------------------------------------------------------------------------

pub open spec fn starts_with(s: Seq<char>, p: Seq<char>) -> bool {
    s.len() >= p.len() && s.take(p.len() as int) == p
}

/// A line whose trimmed text starts with `// name:` or `//name:`.
pub open spec fn is_name_line(l: Seq<char>) -> bool {
    starts_with(trim(l), "// name:"@) || starts_with(trim(l), "//name:"@)
}

/// The lines of `ls` that are not `// name:` directives.
pub open spec fn unnamed_lines(ls: Seq<Seq<char>>) -> Seq<Seq<char>>
    decreases ls.len(),
{
    if ls.len() == 0 {
        seq![]
    } else if is_name_line(ls.last()) {
        unnamed_lines(ls.drop_last())
    } else {
        unnamed_lines(ls.drop_last()).push(ls.last())
    }
}

/// A body with its `// name:` directive lines dropped.
pub open spec fn strip_name_line_spec(body: Seq<char>) -> Seq<char> {
    if !contains(body, "// name:"@) && !contains(body, "//name:"@) {
        body
    } else {
        join_lines(unnamed_lines(lines_spec(body)))
    }
}

/// Whether `t` starts with the characters of `p`.
pub fn starts_with_exec(t: &Vec<char>, p: &str) -> (r: bool)
    ensures
        r == starts_with(t@, p@),
{
    let pv = chars_of(p);
    let r = crate::text::matches_at_exec(t, 0, &pv);
    assert(t@.len() >= pv@.len() ==> t@.take(pv@.len() as int) =~= t@.subrange(0, pv@.len() as int));
    r
}

fn is_name_line_exec(l: &Vec<char>) -> (r: bool)
    ensures
        r == is_name_line(l@),
{
    let t = crate::text::trim_vec(l);
    starts_with_exec(&t, "// name:") || starts_with_exec(&t, "//name:")
}

pub fn strip_name_line_vec(t: &Vec<char>) -> (res: Vec<char>)
    ensures
        res@ == strip_name_line_spec(t@),
{
    let a = find_str(t, "// name:", 0);
    let b = find_str(t, "//name:", 0);
    if a.is_none() && b.is_none() {
        assert(t@.subrange(0, t.len() as int) =~= t@);
        return slice_vec(t, 0, t.len());
    }
    let ls = lines_vec(t);
    let mut kept: Vec<Vec<char>> = Vec::new();
    let mut k: usize = 0;
    while k < ls.len()
        invariant
            k <= ls.len(),
            vec_views(ls@) == lines_spec(t@),
            vec_views(kept@) == unnamed_lines(vec_views(ls@).take(k as int)),
        decreases ls.len() - k,
    {
        let ghost v = vec_views(ls@);
        proof {
            assert(v.take(k + 1).drop_last() =~= v.take(k as int));
            assert(v.take(k + 1).last() == ls@[k as int]@);
        }
        if !is_name_line_exec(&ls[k]) {
            let l = slice_vec(&ls[k], 0, ls[k].len());
            let ghost before = kept@;
            kept.push(l);
            proof {
                assert(ls@[k as int]@.subrange(0, ls@[k as int]@.len() as int) =~= ls@[k as int]@);
                assert(vec_views(kept@) =~= vec_views(before).push(ls@[k as int]@));
            }
        }
        k += 1;
    }
    assert(vec_views(ls@).take(ls.len() as int) =~= vec_views(ls@));
    let mut out: Vec<char> = Vec::new();
    push_joined(&mut out, &kept);
    assert(out@ =~= join_lines(vec_views(kept@)));
    out
}

/// Drops the `// name:` directive line before the body reaches the renderer.
/// Only lines whose trimmed text starts with `// name:` (or `//name:`) go.
pub fn strip_card_name_line(body: &str) -> (res: String)
    ensures
        res@ == strip_name_line_spec(body@),
{
    let t = chars_of(body);
    let r = strip_name_line_vec(&t);
    string_of(&r)
}

// ---------------------------------------------------------------------------
// Card names
// ---------------------------------------------------------------------------

/// Each character kept when ASCII alphanumeric (lowercased), else `-`.
pub open spec fn slugify(s: Seq<char>) -> Seq<char> {
    s.map_values(|c: char| if is_ascii_alnum(c) { ascii_lower(c) } else { '-' })
}

/// The number of leading `-`.
pub open spec fn dash_prefix_len(s: Seq<char>) -> nat
    decreases s.len(),
{
    if s.len() > 0 && s[0] == '-' {
        1 + dash_prefix_len(s.drop_first())
    } else {
        0
    }
}

/// The number of trailing `-`.
pub open spec fn dash_suffix_len(s: Seq<char>) -> nat
    decreases s.len(),
{
    if s.len() > 0 && s.last() == '-' {
        1 + dash_suffix_len(s.drop_last())
    } else {
        0
    }
}

/// `str::trim_matches('-')`.
pub open spec fn trim_dashes(s: Seq<char>) -> Seq<char> {
    let a = s.skip(dash_prefix_len(s) as int);
    a.take(a.len() - dash_suffix_len(a))
}

/// The kebab slug of `s`: at most 48 characters.
pub open spec fn slug_raw(s: Seq<char>) -> Seq<char> {
    let slug = trim_dashes(slugify(s));
    if slug.len() > 48 {
        slug.take(48)
    } else {
        slug
    }
}

/// The stable kebab slug of a directive's (trimmed) text.
pub open spec fn slug_of(s: Seq<char>) -> Seq<char> {
    slug_raw(trim(s))
}

/// A character a slug may hold.
pub open spec fn is_slug_char(c: char) -> bool {
    crate::text::is_ascii_lower(c) || crate::text::is_ascii_digit(c) || c == '-'
}

/// The `// name:` slug of `ls[k..]`: the first directive line with a non-empty
/// slug, unless a line starting with an uppercase letter (widget code) comes
/// first.
pub open spec fn card_name_from(ls: Seq<Seq<char>>, k: int) -> Option<Seq<char>>
    decreases ls.len() - k,
{
    if k < 0 || k >= ls.len() {
        None
    } else {
        let t = trim(ls[k]);
        let found = if starts_with(t, "// name:"@) {
            let slug = slug_of(t.skip("// name:"@.len() as int));
            if slug.len() > 0 {
                Some(slug)
            } else {
                None
            }
        } else if starts_with(t, "//name:"@) {
            let slug = slug_of(t.skip("//name:"@.len() as int));
            if slug.len() > 0 {
                Some(slug)
            } else {
                None
            }
        } else {
            None
        };
        if found is Some {
            found
        } else if t.len() > 0 && is_ascii_upper(t[0]) {
            None
        } else {
            card_name_from(ls, k + 1)
        }
    }
}

pub open spec fn card_name_spec(body: Seq<char>) -> Option<Seq<char>> {
    card_name_from(lines_spec(body), 0)
}

pub proof fn lemma_dash_prefix(s: Seq<char>)
    ensures
        dash_prefix_len(s) <= s.len(),
        forall|k: int| 0 <= k < dash_prefix_len(s) ==> s[k] == '-',
        dash_prefix_len(s) < s.len() ==> s[dash_prefix_len(s) as int] != '-',
    decreases s.len(),
{
    if s.len() > 0 && s[0] == '-' {
        lemma_dash_prefix(s.drop_first());
        assert forall|k: int| 0 <= k < dash_prefix_len(s) implies s[k] == '-' by {
            if k > 0 {
                assert(s[k] == s.drop_first()[k - 1]);
            }
        }
    }
}

pub proof fn lemma_dash_suffix(s: Seq<char>)
    ensures
        dash_suffix_len(s) <= s.len(),
        dash_suffix_len(s) < s.len() ==> s[s.len() - dash_suffix_len(s) - 1] != '-',
    decreases s.len(),
{
    if s.len() > 0 && s.last() == '-' {
        lemma_dash_suffix(s.drop_last());
    }
}

pub proof fn lemma_dash_prefix_is(s: Seq<char>, n: int)
    requires
        0 <= n <= s.len(),
        forall|k: int| 0 <= k < n ==> s[k] == '-',
        n < s.len() ==> s[n] != '-',
    ensures
        dash_prefix_len(s) == n,
    decreases n,
{
    if n > 0 {
        lemma_dash_prefix_is(s.drop_first(), n - 1);
    }
}

pub proof fn lemma_dash_suffix_is(s: Seq<char>, n: int)
    requires
        0 <= n <= s.len(),
        forall|k: int| s.len() - n <= k < s.len() ==> s[k] == '-',
        n < s.len() ==> s[s.len() - n - 1] != '-',
    ensures
        dash_suffix_len(s) == n,
    decreases n,
{
    if n > 0 {
        lemma_dash_suffix_is(s.drop_last(), n - 1);
    }
}

/// The slug of `t[a..b]`.
fn slug_vec(t: &Vec<char>, a: usize, b: usize) -> (res: Vec<char>)
    requires
        a <= b <= t.len(),
    ensures
        res@ == slug_of(t@.subrange(a as int, b as int)),
{
    let (lo, hi) = trim_bounds(t, a, b);
    slug_raw_vec(t, lo, hi)
}

/// The raw slug of `t[lo..hi]`.
pub fn slug_raw_vec(t: &Vec<char>, lo: usize, hi: usize) -> (res: Vec<char>)
    requires
        lo <= hi <= t.len(),
    ensures
        res@ == slug_raw(t@.subrange(lo as int, hi as int)),
{
    let ghost src = t@.subrange(lo as int, hi as int);
    let mut sl: Vec<char> = Vec::new();
    let mut i = lo;
    while i < hi
        invariant
            lo <= i <= hi <= t.len(),
            src == t@.subrange(lo as int, hi as int),
            sl@ == slugify(t@.subrange(lo as int, i as int)),
        decreases hi - i,
    {
        let c = t[i];
        let d = if ('a' <= c && c <= 'z') || ('A' <= c && c <= 'Z') || ('0' <= c && c <= '9') {
            ascii_lower_exec(c)
        } else {
            '-'
        };
        sl.push(d);
        assert(slugify(t@.subrange(lo as int, i + 1)) =~= slugify(t@.subrange(lo as int, i as int)).push(d));
        i += 1;
    }
    let ghost s = sl@;
    let mut p: usize = 0;
    while p < sl.len() && sl[p] == '-'
        invariant
            sl@ == s,
            p <= sl.len(),
            forall|k: int| 0 <= k < p ==> s[k] == '-',
        decreases sl.len() - p,
    {
        p += 1;
    }
    proof {
        lemma_dash_prefix_is(s, p as int);
    }
    let ghost a2 = s.skip(p as int);
    let mut q = sl.len();
    while q > p && sl[q - 1] == '-'
        invariant
            sl@ == s,
            p <= q <= sl.len(),
            forall|k: int| q <= k < sl.len() ==> s[k] == '-',
        decreases q,
    {
        q -= 1;
    }
    proof {
        lemma_dash_suffix_is(a2, (sl.len() - q) as int);
        assert(a2.take(a2.len() - (sl.len() - q)) =~= s.subrange(p as int, q as int));
    }
    let hi2 = if q - p > 48 {
        p + 48
    } else {
        q
    };
    let r = slice_vec(&sl, p, hi2);
    proof {
        let slug = trim_dashes(slugify(t@.subrange(lo as int, hi as int)));
        assert(slug =~= s.subrange(p as int, q as int));
        if q - p > 48 {
            assert(r@ =~= slug.take(48));
        }
    }
    r
}

pub fn card_name_vec(t: &Vec<char>) -> (res: Option<Vec<char>>)
    ensures
        match res {
            Some(v) => card_name_spec(t@) == Some(v@),
            None => card_name_spec(t@) is None,
        },
{
    let ls = lines_vec(t);
    let mut k: usize = 0;
    proof {
        reveal_strlit("// name:");
        reveal_strlit("//name:");
    }
    while k < ls.len()
        invariant
            k <= ls.len(),
            vec_views(ls@) == lines_spec(t@),
            card_name_spec(t@) == card_name_from(vec_views(ls@), k as int),
            "// name:"@.len() == 8,
            "//name:"@.len() == 7,
        decreases ls.len() - k,
    {
        let l = &ls[k];
        proof {
            assert(vec_views(ls@)[k as int] == l@);
        }
        let (lo, hi) = trim_bounds(l, 0, l.len());
        proof {
            assert(l@.subrange(0, l@.len() as int) =~= l@);
        }
        let tt = slice_vec(l, lo, hi);
        if starts_with_exec(&tt, "// name:") {
            let sl = slug_vec(&tt, 8, tt.len());
            proof {
                assert(tt@.subrange(8, tt@.len() as int) =~= tt@.skip(8));
            }
            if sl.len() > 0 {
                return Some(sl);
            }
        } else if starts_with_exec(&tt, "//name:") {
            let sl = slug_vec(&tt, 7, tt.len());
            proof {
                assert(tt@.subrange(7, tt@.len() as int) =~= tt@.skip(7));
            }
            if sl.len() > 0 {
                return Some(sl);
            }
        }
        if tt.len() > 0 && 'A' <= tt[0] && tt[0] <= 'Z' {
            return None;
        }
        k += 1;
    }
    None
}

/// The `// name: <slug>` directive of a card body, sanitized to a stable
/// kebab slug (lowercase ASCII letters, digits and `-`, at most 48).
pub fn extract_card_name(body: &str) -> (res: Option<String>)
    ensures
        match res {
            Some(s) => card_name_spec(body@) == Some(s@),
            None => card_name_spec(body@) is None,
        },
{
    let t = chars_of(body);
    match card_name_vec(&t) {
        Some(v) => Some(string_of(&v)),
        None => None,
    }
}

// ---------------------------------------------------------------------------
// The shape of a card name
// ---------------------------------------------------------------------------

/// `trim_dashes(x)` is a run of `x` that does not start with `-`.
pub proof fn lemma_trim_dashes(x: Seq<char>)
    ensures
        dash_prefix_len(x) + trim_dashes(x).len() <= x.len(),
        forall|k: int|
            0 <= k < trim_dashes(x).len() ==> trim_dashes(x)[k] == x[dash_prefix_len(x) + k],
        trim_dashes(x).len() > 0 ==> trim_dashes(x)[0] != '-',
{
    lemma_dash_prefix(x);
    let a = x.skip(dash_prefix_len(x) as int);
    lemma_dash_suffix(a);
}

/// A card name: 1 to 48 lower-case ASCII letters, digits and `-`, not
/// starting with `-`.
pub open spec fn is_card_slug(n: Seq<char>) -> bool {
    &&& 0 < n.len() <= 48
    &&& forall|k: int| 0 <= k < n.len() ==> is_slug_char(#[trigger] n[k])
    &&& n[0] != '-'
}

proof fn lemma_slug_raw(s: Seq<char>)
    ensures
        slug_raw(s).len() <= 48,
        forall|k: int| 0 <= k < slug_raw(s).len() ==> is_slug_char(#[trigger] slug_raw(s)[k]),
        slug_raw(s).len() > 0 ==> slug_raw(s)[0] != '-',
{
    let sl = slugify(s);
    assert forall|k: int| 0 <= k < sl.len() implies is_slug_char(#[trigger] sl[k]) by {
        let c = s[k];
        if is_ascii_alnum(c) {
            assert(sl[k] == ascii_lower(c));
        }
    }
    lemma_trim_dashes(sl);
    let td = trim_dashes(sl);
    assert forall|k: int| 0 <= k < slug_raw(s).len() implies is_slug_char(#[trigger] slug_raw(s)[k]) by {
        assert(slug_raw(s)[k] == td[k]);
        assert(td[k] == sl[dash_prefix_len(sl) + k]);
    }
}

/// Every card name `extract_card_name` reads is a kebab slug: 1 to 48
/// lower-case ASCII letters, digits and `-`, not starting with `-`.
pub proof fn lemma_card_name_is_slug(body: Seq<char>)
    ensures
        card_name_spec(body) matches Some(n) ==> is_card_slug(n),
{
    lemma_card_name_from_is_slug(lines_spec(body), 0);
}

proof fn lemma_card_name_from_is_slug(ls: Seq<Seq<char>>, k: int)
    ensures
        card_name_from(ls, k) matches Some(n) ==> is_card_slug(n),
    decreases ls.len() - k,
{
    if 0 <= k < ls.len() {
        let t = trim(ls[k]);
        lemma_slug_raw(trim(t.skip("// name:"@.len() as int)));
        lemma_slug_raw(trim(t.skip("//name:"@.len() as int)));
        lemma_card_name_from_is_slug(ls, k + 1);
    }
}

} // verus!
