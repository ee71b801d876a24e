//! String-aware scanning of card DSL: brace matching, top-level comma
//! splitting and the flat `key: value` maps that `props:` and `on:` carry.
use vstd::prelude::*;
use crate::keyed::{KeyedMap, pairs_map};
use crate::text::{
    chars_of, find, find_from_exec, lemma_find_from, lemma_utf8_len_prefix, slice_vec, string_of,
    trim, trim_bounds, utf8_len, utf8_width,
};

verus! {

// ---------------------------------------------------------------------------
// Brace matching
// ---------------------------------------------------------------------------

/// The scan behind `matching_brace`: from position `i`, at brace depth
/// `depth`, inside a `"…"` literal iff `in_str`. A backslash inside a literal
/// escapes the next character; braces inside a literal do not count.
pub open spec fn brace_scan(s: Seq<char>, i: int, depth: int, in_str: bool) -> Option<int>
    decreases s.len() + 1 - i,
{
    if i < 0 || i >= s.len() {
        None
    } else if in_str {
        if s[i] == '\\' {
            brace_scan(s, i + 2, depth, true)
        } else if s[i] == '"' {
            brace_scan(s, i + 1, depth, false)
        } else {
            brace_scan(s, i + 1, depth, true)
        }
    } else if s[i] == '"' {
        brace_scan(s, i + 1, depth, true)
    } else if s[i] == '{' {
        brace_scan(s, i + 1, depth + 1, false)
    } else if s[i] == '}' {
        if depth - 1 == 0 {
            Some(i)
        } else {
            brace_scan(s, i + 1, depth - 1, false)
        }
    } else {
        brace_scan(s, i + 1, depth, false)
    }
}

/// The position of the `}` that closes the `{` at `open`, or `None` when
/// `open` is not a `{` or the brace is never closed.
pub open spec fn matching_brace_spec(s: Seq<char>, open: int) -> Option<int> {
    if 0 <= open < s.len() && s[open] == '{' {
        brace_scan(s, open, 0, false)
    } else {
        None
    }
}

pub proof fn lemma_brace_scan(s: Seq<char>, i: int, depth: int, in_str: bool)
    ensures
        brace_scan(s, i, depth, in_str) matches Some(j) ==> i <= j < s.len() && s[j] == '}',
    decreases s.len() + 1 - i,
{
    if i < 0 || i >= s.len() {
    } else if in_str {
        if s[i] == '\\' {
            lemma_brace_scan(s, i + 2, depth, true);
        } else if s[i] == '"' {
            lemma_brace_scan(s, i + 1, depth, false);
        } else {
            lemma_brace_scan(s, i + 1, depth, true);
        }
    } else if s[i] == '"' {
        lemma_brace_scan(s, i + 1, depth, true);
    } else if s[i] == '{' {
        lemma_brace_scan(s, i + 1, depth + 1, false);
    } else if s[i] == '}' {
        if depth - 1 != 0 {
            lemma_brace_scan(s, i + 1, depth - 1, false);
        }
    } else {
        lemma_brace_scan(s, i + 1, depth, false);
    }
}

/// A matched brace is a `}` strictly after the `{` it closes.
pub proof fn lemma_matching_brace(s: Seq<char>, open: int)
    ensures
        matching_brace_spec(s, open) matches Some(j) ==> 0 <= open < j < s.len() && s[open]
            == '{' && s[j] == '}',
{
    if 0 <= open < s.len() && s[open] == '{' {
        lemma_brace_scan(s, open, 0, false);
    }
}

/// Position of the `}` matching the `{` at `open` in `t`.
pub fn matching_brace_vec(t: &Vec<char>, open: usize) -> (r: Option<usize>)
    ensures
        r matches Some(j) ==> matching_brace_spec(t@, open as int) == Some(j as int),
        r is None ==> matching_brace_spec(t@, open as int) is None,
{
    if open >= t.len() || t[open] != '{' {
        return None;
    }
    let mut depth: i128 = 0;
    let mut i = open;
    let mut in_str = false;
    while i < t.len()
        invariant
            open <= i,
            t@[open as int] == '{',
            (i == open && depth == 0 && !in_str) || (i > open && 1 <= depth <= i - open),
            matching_brace_spec(t@, open as int) == brace_scan(t@, i as int, depth as int, in_str),
        decreases t.len() - i,
    {
        let c = t[i];
        if in_str {
            if c == '\\' {
                if i + 1 >= t.len() {
                    assert(brace_scan(t@, i + 2, depth as int, true) is None);
                    return None;
                }
                i += 2;
                continue;
            }
            if c == '"' {
                in_str = false;
            }
            i += 1;
            continue;
        }
        if c == '"' {
            in_str = true;
        } else if c == '{' {
            depth += 1;
        } else if c == '}' {
            depth -= 1;
            if depth == 0 {
                return Some(i);
            }
        }
        i += 1;
    }
    None
}

/// The character position that starts at UTF-8 byte `b` of `s`, looking
/// from character `k`, which starts at byte `at`; `None` when no character
/// starts there (past the end, or inside a character).
pub open spec fn char_at_byte_from(s: Seq<char>, b: int, k: int, at: int) -> Option<int>
    decreases s.len() - k,
{
    if k < 0 || k > s.len() {
        None
    } else if at == b {
        Some(k)
    } else if at > b || k == s.len() {
        None
    } else {
        char_at_byte_from(s, b, k + 1, at + utf8_width(s[k]))
    }
}

/// `matching_brace_spec` on UTF-8 byte offsets: the byte offset of the `}`
/// matching the `{` at byte `open`.
pub open spec fn matching_brace_bytes_spec(s: Seq<char>, open: int) -> Option<int> {
    match char_at_byte_from(s, open, 0, 0) {
        None => None,
        Some(k) => match matching_brace_spec(s, k) {
            None => None,
            Some(j) => Some(utf8_len(s.take(j)) as int),
        },
    }
}

fn width_exec(c: char) -> (w: usize)
    ensures
        w == utf8_width(c),
{
    let code = c as u32;
    if code < 0x80 {
        1
    } else if code < 0x800 {
        2
    } else if code < 0x10000 {
        3
    } else {
        4
    }
}

/// Index (a UTF-8 byte offset) of the `}` matching the `{` at byte `open`
/// of `s`. Braces inside `"…"` (and the `{{…}}` template tokens, which are
/// self-balancing) do not unbalance the scan; `None` when `open` is not a
/// `{` or it is unmatched.
pub fn matching_brace(s: &str, open: usize) -> (r: Option<usize>)
    requires
        utf8_len(s@) <= usize::MAX,
    ensures
        r matches Some(j) ==> matching_brace_bytes_spec(s@, open as int) == Some(j as int),
        r is None ==> matching_brace_bytes_spec(s@, open as int) is None,
{
    let t = chars_of(s);
    let mut k: usize = 0;
    let mut at: usize = 0;
    while k < t.len() && at < open
        invariant
            t@ == s@,
            k <= t.len(),
            at == utf8_len(t@.take(k as int)),
            char_at_byte_from(t@, open as int, 0, 0) == char_at_byte_from(t@, open as int, k as int, at as int),
        decreases t.len() - k,
    {
        let w = width_exec(t[k]);
        assert(t@.take(k + 1).drop_last() =~= t@.take(k as int));
        if w > open - at {
            assert(char_at_byte_from(t@, open as int, k + 1, at + w) is None);
            return None;
        }
        at = at + w;
        k += 1;
    }
    if at != open {
        return None;
    }
    match matching_brace_vec(&t, k) {
        None => None,
        Some(j) => {
            proof {
                lemma_matching_brace(t@, k as int);
                lemma_utf8_len_prefix(t@, j as int);
                assert(t@.take(t.len() as int) =~= t@);
            }
            let mut m: usize = 0;
            let mut bytes: usize = 0;
            while m < j
                invariant
                    t@ == s@,
                    j < t.len(),
                    m <= j,
                    bytes == utf8_len(t@.take(m as int)),
                    utf8_len(t@.take(j as int)) <= usize::MAX,
                decreases j - m,
            {
                assert(t@.take(m + 1).drop_last() =~= t@.take(m as int));
                proof {
                    lemma_utf8_len_prefix(t@.take(j as int), m + 1);
                    assert(t@.take(j as int).take(m + 1) =~= t@.take(m + 1));
                }
                bytes = bytes + width_exec(t[m]);
                m += 1;
            }
            Some(bytes)
        },
    }
}

// ---------------------------------------------------------------------------
// Top-level comma splitting
// ---------------------------------------------------------------------------

/// The scan behind `split_top_level_commas`: the pieces from position `i` on,
/// where the current piece began at `start`.
pub open spec fn split_scan(s: Seq<char>, i: int, start: int, depth: int, in_str: bool) -> Seq<
    Seq<char>,
>
    decreases s.len() + 1 - i,
{
    if i < 0 || i >= s.len() {
        let tail = trim(s.subrange(start, s.len() as int));
        if tail.len() > 0 {
            seq![tail]
        } else {
            seq![]
        }
    } else if in_str {
        if s[i] == '\\' {
            split_scan(s, i + 2, start, depth, true)
        } else if s[i] == '"' {
            split_scan(s, i + 1, start, depth, false)
        } else {
            split_scan(s, i + 1, start, depth, true)
        }
    } else if s[i] == '"' {
        split_scan(s, i + 1, start, depth, true)
    } else if s[i] == '{' {
        split_scan(s, i + 1, start, depth + 1, false)
    } else if s[i] == '}' {
        split_scan(s, i + 1, start, depth - 1, false)
    } else if s[i] == ',' && depth == 0 {
        seq![trim(s.subrange(start, i))] + split_scan(s, i + 1, i + 1, depth, false)
    } else {
        split_scan(s, i + 1, start, depth, false)
    }
}

/// The pieces of `s` between top-level commas, each trimmed; a trailing empty
/// piece is dropped.
pub open spec fn split_commas_spec(s: Seq<char>) -> Seq<Seq<char>> {
    split_scan(s, 0, 0, 0, false)
}

pub open spec fn vec_views(v: Seq<Vec<char>>) -> Seq<Seq<char>> {
    v.map_values(|x: Vec<char>| x@)
}

/// The top-level comma separated pieces of `t`.
pub fn split_commas_vec(t: &Vec<char>) -> (res: Vec<Vec<char>>)
    ensures
        vec_views(res@) == split_commas_spec(t@),
{
    let mut parts: Vec<Vec<char>> = Vec::new();
    let mut start: usize = 0;
    let mut depth: i128 = 0;
    let mut in_str = false;
    let mut i: usize = 0;
    while i < t.len()
        invariant
            start <= i <= t.len(),
            -(i as int) <= depth <= i,
            split_commas_spec(t@) == vec_views(parts@) + split_scan(
                t@,
                i as int,
                start as int,
                depth as int,
                in_str,
            ),
        decreases t.len() - i,
    {
        let c = t[i];
        if in_str {
            if c == '\\' {
                if i + 1 >= t.len() {
                    proof {
                        assert(split_scan(t@, i + 2, start as int, depth as int, true)
                            == split_scan(t@, t.len() as int, start as int, depth as int, true));
                    }
                    i = t.len();
                    continue;
                }
                i += 2;
                continue;
            }
            if c == '"' {
                in_str = false;
            }
            i += 1;
            continue;
        }
        if c == '"' {
            in_str = true;
        } else if c == '{' {
            depth += 1;
        } else if c == '}' {
            depth -= 1;
        } else if c == ',' && depth == 0 {
            let (lo, hi) = trim_bounds(t, start, i);
            let piece = slice_vec(t, lo, hi);
            let ghost before = parts@;
            parts.push(piece);
            proof {
                assert(vec_views(parts@) =~= vec_views(before) + seq![trim(t@.subrange(start as int, i as int))]);
            }
            start = i + 1;
        }
        i += 1;
    }
    let (lo, hi) = trim_bounds(t, start, t.len());
    assert(split_scan(t@, i as int, start as int, depth as int, in_str) == {
        let tail = trim(t@.subrange(start as int, t.len() as int));
        if tail.len() > 0 { seq![tail] } else { seq![] }
    });
    if hi > lo {
        let piece = slice_vec(t, lo, hi);
        let ghost before = parts@;
        parts.push(piece);
        proof {
            assert(vec_views(parts@) =~= vec_views(before) + seq![trim(t@.subrange(start as int, t.len() as int))]);
        }
    } else {
        proof {
            assert(vec_views(parts@) + Seq::<Seq<char>>::empty() =~= vec_views(parts@));
        }
    }
    parts
}

/// Splits the inside of a `{ … }` block on top-level commas (commas nested in
/// `{…}` or `"…"` are not separators); each piece trimmed.
pub fn split_top_level_commas(inner: &str) -> (res: Vec<String>)
    ensures
        res@.len() == split_commas_spec(inner@).len(),
        forall|k: int| 0 <= k < res@.len() ==> #[trigger] res@[k]@ == split_commas_spec(inner@)[k],
{
    let t = chars_of(inner);
    let parts = split_commas_vec(&t);
    let mut res: Vec<String> = Vec::new();
    let mut k: usize = 0;
    while k < parts.len()
        invariant
            k <= parts.len(),
            vec_views(parts@) == split_commas_spec(inner@),
            res@.len() == k,
            forall|m: int| 0 <= m < k ==> #[trigger] res@[m]@ == split_commas_spec(inner@)[m],
        decreases parts.len() - k,
    {
        res.push(string_of(&parts[k]));
        proof {
            assert(vec_views(parts@)[k as int] == parts@[k as int]@);
        }
        k += 1;
    }
    res
}

// ---------------------------------------------------------------------------
// Flat maps
// ---------------------------------------------------------------------------

/// `v` trimmed, with one layer of surrounding double quotes removed.
pub open spec fn unquote_spec(v: Seq<char>) -> Seq<char> {
    let t = trim(v);
    if t.len() >= 2 && t[0] == '"' && t.last() == '"' {
        t.subrange(1, t.len() - 1)
    } else {
        t
    }
}

/// `unquote(t[a..b])`.
pub fn unquote_vec(t: &Vec<char>, a: usize, b: usize) -> (res: Vec<char>)
    requires
        a <= b <= t.len(),
    ensures
        res@ == unquote_spec(t@.subrange(a as int, b as int)),
{
    let (lo, hi) = trim_bounds(t, a, b);
    if hi - lo >= 2 && t[lo] == '"' && t[hi - 1] == '"' {
        let r = slice_vec(t, lo + 1, hi - 1);
        assert(r@ =~= t@.subrange(lo as int, hi as int).subrange(1, (hi - lo) - 1));
        r
    } else {
        slice_vec(t, lo, hi)
    }
}

/// Strips one layer of matching quotes and trims.
pub fn unquote(v: &str) -> (res: String)
    ensures
        res@ == unquote_spec(v@),
{
    let t = chars_of(v);
    let r = unquote_vec(&t, 0, t.len());
    assert(t@.subrange(0, t.len() as int) =~= t@);
    string_of(&r)
}

/// The `key: value` writes a list of pieces makes: each piece with a `:`
/// writes its trimmed key (when non-empty) and unquoted value.
pub open spec fn flat_writes(parts: Seq<Seq<char>>) -> Seq<(Seq<char>, Seq<char>)>
    decreases parts.len(),
{
    if parts.len() == 0 {
        seq![]
    } else {
        let rest = flat_writes(parts.drop_last());
        let part = parts.last();
        match find(part, seq![':']) {
            Some(c) => {
                let k = trim(part.subrange(0, c));
                if k.len() > 0 {
                    rest.push((k, unquote_spec(part.subrange(c + 1, part.len() as int))))
                } else {
                    rest
                }
            },
            None => rest,
        }
    }
}

/// The map a flat `key: value, key: value` body describes.
pub open spec fn flat_map_spec(s: Seq<char>) -> Map<Seq<char>, Seq<char>> {
    pairs_map(flat_writes(split_commas_spec(s)))
}

pub type StrMap = KeyedMap<String>;

/// Parses a flat `key: value, key: value` body into a map (values unquoted).
pub fn parse_flat_map_vec(t: &Vec<char>) -> (m: StrMap)
    ensures
        m@ == flat_map_spec(t@),
{
    let parts = split_commas_vec(t);
    let mut m: StrMap = KeyedMap::new();
    let mut colon: Vec<char> = Vec::new();
    colon.push(':');
    assert(colon@ =~= seq![':']);
    let mut k: usize = 0;
    while k < parts.len()
        invariant
            colon@ == seq![':'],
            k <= parts.len(),
            vec_views(parts@) == split_commas_spec(t@),
            m@ == pairs_map(flat_writes(vec_views(parts@).take(k as int))),
        decreases parts.len() - k,
    {
        let part = &parts[k];
        let ghost done = vec_views(parts@).take(k as int);
        let ghost next = vec_views(parts@).take(k + 1);
        proof {
            assert(next.drop_last() =~= done);
            assert(next.last() == part@);
        }
        match find_from_exec(part, &colon, 0) {
            Some(c) => {
                proof {
                    lemma_find_from(part@, colon@, 0);
                }
                let (lo, hi) = trim_bounds(part, 0, c);
                if hi > lo {
                    let key = slice_vec(part, lo, hi);
                    let val = unquote_vec(part, c + 1, part.len());
                    let ghost w = (key@, val@);
                    proof {
                        let rest = flat_writes(done);
                        assert(flat_writes(next) == rest.push(w));
                        assert(rest.push(w).drop_last() =~= rest);
                    }
                    m.insert(string_of(&key), string_of(&val));
                } else {
                    assert(flat_writes(next) == flat_writes(done));
                }
            },
            None => {
                assert(flat_writes(next) == flat_writes(done));
            },
        }
        k += 1;
    }
    assert(vec_views(parts@).take(parts.len() as int) =~= vec_views(parts@));
    m
}

/// Parses a flat `key: value, key: value` body into a map (values unquoted).
/// Used for `props:`.
pub fn parse_flat_map(inner: &str) -> (m: StrMap)
    ensures
        m@ == flat_map_spec(inner@),
{
    let t = chars_of(inner);
    parse_flat_map_vec(&t)
}

/// One `on:` handler: when the child emits `event`, write parent state `key`.
/// If `value` is set that literal is written, otherwise the value carried by
/// the emit is passed through.
pub struct EmitHandler {
    pub key: String,
    pub value: Option<String>,
}

pub open spec fn opt_view(o: Option<String>) -> Option<Seq<char>> {
    match o {
        Some(s) => Some(s@),
        None => None,
    }
}

impl View for EmitHandler {
    type V = (Seq<char>, Option<Seq<char>>);

    open spec fn view(&self) -> (Seq<char>, Option<Seq<char>>) {
        (self.key@, opt_view(self.value))
    }
}

pub type EmitMap = KeyedMap<EmitHandler>;

/// `{ … }` around `rhs` removed when it has both braces, else `rhs`.
pub open spec fn strip_braces(rhs: Seq<char>) -> Seq<char> {
    if rhs.len() >= 2 && rhs[0] == '{' && rhs.last() == '}' {
        rhs.subrange(1, rhs.len() - 1)
    } else {
        rhs
    }
}

/// The handler writes of an `on:` body's pieces: `ev: { key: "k"[, value: "v"] }`
/// registers a handler for `ev` when the object names a `key`.
pub open spec fn on_writes(parts: Seq<Seq<char>>) -> Seq<(Seq<char>, (Seq<char>, Option<Seq<char>>))>
    decreases parts.len(),
{
    if parts.len() == 0 {
        seq![]
    } else {
        let rest = on_writes(parts.drop_last());
        let part = parts.last();
        match find(part, seq![':']) {
            Some(c) => {
                let ev = trim(part.subrange(0, c));
                let fields = flat_map_spec(strip_braces(trim(part.subrange(c + 1, part.len() as int))));
                if fields.contains_key(seq!['k', 'e', 'y']) {
                    rest.push(
                        (
                            ev,
                            (
                                fields[seq!['k', 'e', 'y']],
                                if fields.contains_key(seq!['v', 'a', 'l', 'u', 'e']) {
                                    Some(fields[seq!['v', 'a', 'l', 'u', 'e']])
                                } else {
                                    None
                                },
                            ),
                        ),
                    )
                } else {
                    rest
                }
            },
            None => rest,
        }
    }
}

/// The handlers an `on:` body describes.
pub open spec fn on_map_spec(s: Seq<char>) -> Map<Seq<char>, (Seq<char>, Option<Seq<char>>)> {
    pairs_map(on_writes(split_commas_spec(s)))
}

fn clone_string(s: &String) -> (r: String)
    ensures
        r@ == s@,
{
    s.clone()
}

/// Parses an `on: { ev: { key: "k", value: "v" }, ev2: { key: "k2" } }` body.
pub fn parse_on_map_vec(t: &Vec<char>) -> (m: EmitMap)
    ensures
        m@ == on_map_spec(t@),
{
    let parts = split_commas_vec(t);
    let mut m: EmitMap = KeyedMap::new();
    let mut colon: Vec<char> = Vec::new();
    colon.push(':');
    assert(colon@ =~= seq![':']);
    let mut k: usize = 0;
    while k < parts.len()
        invariant
            colon@ == seq![':'],
            k <= parts.len(),
            vec_views(parts@) == split_commas_spec(t@),
            m@ == pairs_map(on_writes(vec_views(parts@).take(k as int))),
        decreases parts.len() - k,
    {
        let part = &parts[k];
        let ghost done = vec_views(parts@).take(k as int);
        let ghost next = vec_views(parts@).take(k + 1);
        proof {
            assert(next.drop_last() =~= done);
            assert(next.last() == part@);
        }
        match find_from_exec(part, &colon, 0) {
            Some(c) => {
                proof {
                    lemma_find_from(part@, colon@, 0);
                }
                let (lo, hi) = trim_bounds(part, 0, c);
                let ev = slice_vec(part, lo, hi);
                let (rlo, rhi) = trim_bounds(part, c + 1, part.len());
                let ghost rhs = part@.subrange(rlo as int, rhi as int);
                let obj = if rhi - rlo >= 2 && part[rlo] == '{' && part[rhi - 1] == '}' {
                    let o = slice_vec(part, rlo + 1, rhi - 1);
                    assert(o@ =~= rhs.subrange(1, rhs.len() - 1));
                    o
                } else {
                    slice_vec(part, rlo, rhi)
                };
                assert(obj@ == strip_braces(rhs));
                let fields = parse_flat_map_vec(&obj);
                let mut kk: Vec<char> = Vec::new();
                kk.push('k');
                kk.push('e');
                kk.push('y');
                let mut vk: Vec<char> = Vec::new();
                vk.push('v');
                vk.push('a');
                vk.push('l');
                vk.push('u');
                vk.push('e');
                proof {
                    assert(kk@ =~= seq!['k', 'e', 'y']);
                    assert(vk@ =~= seq!['v', 'a', 'l', 'u', 'e']);
                }
                match fields.get_chars(&kk) {
                    Some(key) => {
                        let value = match fields.get_chars(&vk) {
                            Some(v) => Some(clone_string(v)),
                            None => None,
                        };
                        let h = EmitHandler { key: clone_string(key), value };
                        let ghost w = (ev@, h@);
                        proof {
                            let rest = on_writes(done);
                            assert(on_writes(next) == rest.push(w));
                            assert(rest.push(w).drop_last() =~= rest);
                        }
                        m.insert(string_of(&ev), h);
                    },
                    None => {
                        assert(on_writes(next) == on_writes(done));
                    },
                }
            },
            None => {
                assert(on_writes(next) == on_writes(done));
            },
        }
        k += 1;
    }
    assert(vec_views(parts@).take(parts.len() as int) =~= vec_views(parts@));
    m
}

/// Parses an `on: { ev: { key: "k", value: "v" }, … }` body into handlers.
pub fn parse_on_map(inner: &str) -> (m: EmitMap)
    ensures
        m@ == on_map_spec(inner@),
{
    let t = chars_of(inner);
    parse_on_map_vec(&t)
}

} // verus!
