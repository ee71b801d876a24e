//! Fenced card blocks in a chat message: extraction, deferral while a block
//! is still streaming, the security guard on `runsplash` blocks, and the
//! per-block render pass.
use vstd::prelude::*;
use crate::compose::CardRegistry;
use crate::lines::{
    lines_spec, lines_vec, slug_raw, slug_raw_vec, starts_with, starts_with_exec, vec_views,
};
use crate::render::{card_state_spec, card_state_vec};
use crate::text::{
    ascii_lower_seq, ascii_lower_vec, ascii_upper_seq, ascii_upper_vec, chars_of, contains,
    find, find_from, find_from_exec, find_str, is_ascii_ws, lemma_find_from, lemma_find_from_unique,
    lemma_rfind_below, matches_at,
    push_all, push_range, push_str, rfind, rfind_below, rfind_str, slice_vec, string_of, trim, trim_bounds,
    trim_end,
};
use crate::tokens::CardState;

verus! {

pub open spec fn nl() -> Seq<char> {
    seq!['\n']
}

pub open spec fn fence3() -> Seq<char> {
    seq!['`', '`', '`']
}

fn nl_vec() -> (r: Vec<char>)
    ensures
        r@ == nl(),
{
    let mut r: Vec<char> = Vec::new();
    r.push('\n');
    assert(r@ =~= nl());
    r
}

fn fence3_vec() -> (r: Vec<char>)
    ensures
        r@ == fence3(),
{
    let mut r: Vec<char> = Vec::new();
    r.push('`');
    r.push('`');
    r.push('`');
    assert(r@ =~= fence3());
    r
}

// ---------------------------------------------------------------------------
// Extraction
// ---------------------------------------------------------------------------

/// The body of the first block opened by `fence`: from the line after the
/// fence to the next ```` ``` ````, trailing whitespace trimmed; `None` while
/// that block is unclosed.
pub open spec fn fenced_body_spec(t: Seq<char>, fence: Seq<char>) -> Option<Seq<char>> {
    match find(t, fence) {
        None => None,
        Some(st) => match find_from(t, nl(), st + fence.len()) {
            None => None,
            Some(n) => match find_from(t, fence3(), n + 1) {
                None => None,
                Some(e) => Some(trim_end(t.subrange(n + 1, e))),
            },
        },
    }
}

pub fn fenced_body_vec(t: &Vec<char>, fence: &str) -> (r: Option<Vec<char>>)
    ensures
        match r {
            Some(b) => fenced_body_spec(t@, fence@) == Some(b@),
            None => fenced_body_spec(t@, fence@) is None,
        },
{
    let f = chars_of(fence);
    let rs = find_from_exec(t, &f, 0);
    let st = match rs {
        None => return None,
        Some(st) => st,
    };
    proof {
        lemma_find_from(t@, f@, 0);
        assert(st + f@.len() <= t.len());
    }
    let n = nl_vec();
    let rn = find_from_exec(t, &n, st + f.len());
    let nn = match rn {
        None => return None,
        Some(x) => x,
    };
    proof {
        lemma_find_from(t@, n@, st + f@.len());
        assert(nn + 1 <= t.len());
    }
    let f3 = fence3_vec();
    let re = find_from_exec(t, &f3, nn + 1);
    let e = match re {
        None => return None,
        Some(e) => e,
    };
    proof {
        lemma_find_from(t@, f3@, nn + 1);
    }
    let r = slice_vec(t, nn + 1, trim_end_pos(t, nn + 1, e));
    Some(r)
}

/// The end of `trim_end(t[a..b])` inside `t`.
fn trim_end_pos(t: &Vec<char>, a: usize, b: usize) -> (hi: usize)
    requires
        a <= b <= t.len(),
    ensures
        a <= hi <= b,
        t@.subrange(a as int, hi as int) == trim_end(t@.subrange(a as int, b as int)),
{
    let mut hi = b;
    while hi > a && crate::text::is_ws_exec(t[hi - 1])
        invariant
            a <= hi <= b <= t.len(),
            forall|k: int| hi <= k < b ==> crate::text::is_ws(t@[k]),
        decreases hi,
    {
        hi -= 1;
    }
    proof {
        let s = t@.subrange(a as int, b as int);
        crate::text::lemma_ws_suffix_len_is(s, b - hi);
        assert(trim_end(s) =~= t@.subrange(a as int, hi as int));
    }
    hi
}

/// The body of the first block opened by `fence`, or `None`.
pub fn fenced_body(text: &str, fence: &str) -> (r: Option<String>)
    ensures
        match r {
            Some(b) => fenced_body_spec(text@, fence@) == Some(b@),
            None => fenced_body_spec(text@, fence@) is None,
        },
{
    let t = chars_of(text);
    match fenced_body_vec(&t, fence) {
        Some(b) => Some(string_of(&b)),
        None => None,
    }
}

/// The body of the first ```` ```runsplash ```` block of a message.
pub fn extract_runsplash_body(text: &str) -> (r: Option<String>)
    ensures
        match r {
            Some(b) => fenced_body_spec(text@, "```runsplash"@) == Some(b@),
            None => fenced_body_spec(text@, "```runsplash"@) is None,
        },
{
    fenced_body(text, "```runsplash")
}

/// The body of the first ```` ```runhtml ```` block of a message (a complete
/// HTML document).
pub fn extract_runhtml_body(text: &str) -> (r: Option<String>)
    ensures
        match r {
            Some(b) => fenced_body_spec(text@, "```runhtml"@) == Some(b@),
            None => fenced_body_spec(text@, "```runhtml"@) is None,
        },
{
    fenced_body(text, "```runhtml")
}

/// The bodies of every closed ```` ```runsplash ```` block from `i` on.
pub open spec fn all_bodies_from(t: Seq<char>, i: int) -> Seq<Seq<char>>
    decreases t.len() + 1 - i,
{
    if i < 0 || i > t.len() {
        seq![]
    } else {
        match find_from(t, "```runsplash"@, i) {
            None => seq![],
            Some(o) => match find_from(t, nl(), o + "```runsplash"@.len()) {
                None => seq![],
                Some(n) => match find_from(t, fence3(), n + 1) {
                    None => seq![],
                    Some(e) => {
                        proof {
                            lemma_find_from(t, "```runsplash"@, i);
                            lemma_find_from(t, nl(), o + "```runsplash"@.len());
                            lemma_find_from(t, fence3(), n + 1);
                        }
                        seq![trim_end(t.subrange(n + 1, e))] + all_bodies_from(t, e + 3)
                    },
                },
            },
        }
    }
}

pub open spec fn all_bodies_spec(t: Seq<char>) -> Seq<Seq<char>> {
    all_bodies_from(t, 0)
}

/// The first body `extract_runsplash_body` finds is the first of all the
/// bodies the security guard scans.
pub proof fn lemma_first_body_is_scanned(t: Seq<char>)
    ensures
        fenced_body_spec(t, "```runsplash"@) matches Some(b) ==> all_bodies_spec(t).len() > 0
            && all_bodies_spec(t)[0] == b,
        fenced_body_spec(t, "```runsplash"@) is None ==> all_bodies_spec(t).len() == 0,
{
    let m = "```runsplash"@;
    match find_from(t, m, 0) {
        None => {},
        Some(o) => {
            lemma_find_from(t, m, 0);
            match find_from(t, nl(), o + m.len()) {
                None => {},
                Some(n) => {
                    lemma_find_from(t, nl(), o + m.len());
                    match find_from(t, fence3(), n + 1) {
                        None => {},
                        Some(e) => {
                            lemma_find_from(t, fence3(), n + 1);
                            assert(all_bodies_from(t, 0) == seq![trim_end(t.subrange(n + 1, e))]
                                + all_bodies_from(t, e + 3));
                        },
                    }
                },
            }
        },
    }
}

/// The bodies of all ```` ```runsplash ```` blocks in a message (the guard must
/// scan every one, not only the first).
pub fn extract_all_runsplash_bodies(text: &str) -> (res: Vec<String>)
    ensures
        res@.len() == all_bodies_spec(text@).len(),
        forall|k: int| 0 <= k < res@.len() ==> #[trigger] res@[k]@ == all_bodies_spec(text@)[k],
{
    let t = chars_of(text);
    let mark = chars_of("```runsplash");
    proof {
        reveal_strlit("```runsplash");
    }
    let n = nl_vec();
    let f3 = fence3_vec();
    let mut res: Vec<String> = Vec::new();
    let ghost mut got: Seq<Seq<char>> = seq![];
    let mut i: usize = 0;
    assert(got + all_bodies_from(t@, 0) =~= all_bodies_from(t@, 0));
    while i <= t.len()
        invariant
            t@ == text@,
            mark@ == "```runsplash"@,
            mark@.len() == 12,
            n@ == nl(),
            f3@ == fence3(),
            i <= t.len(),
            res@.len() == got.len(),
            forall|k: int| 0 <= k < res@.len() ==> #[trigger] res@[k]@ == got[k],
            all_bodies_spec(t@) == got + all_bodies_from(t@, i as int),
        decreases t.len() + 1 - i,
    {
        let ro = find_from_exec(&t, &mark, i);
        let o = match ro {
            None => {
                assert(got + Seq::<Seq<char>>::empty() =~= got);
                return res;
            },
            Some(o) => o,
        };
        proof {
            lemma_find_from(t@, mark@, i as int);
        }
        let rn = find_from_exec(&t, &n, o + 12);
        let nn = match rn {
            None => {
                assert(got + Seq::<Seq<char>>::empty() =~= got);
                return res;
            },
            Some(x) => x,
        };
        proof {
            lemma_find_from(t@, n@, o + 12);
        }
        let re = find_from_exec(&t, &f3, nn + 1);
        let e = match re {
            None => {
                assert(got + Seq::<Seq<char>>::empty() =~= got);
                return res;
            },
            Some(e) => e,
        };
        proof {
            lemma_find_from(t@, f3@, nn + 1);
        }
        let hi = trim_end_pos(&t, nn + 1, e);
        let b = slice_vec(&t, nn + 1, hi);
        res.push(string_of(&b));
        proof {
            assert((got + seq![b@]) + all_bodies_from(t@, e + 3) =~= got + (seq![b@] + all_bodies_from(t@, e + 3)));
            got = got + seq![b@];
        }
        i = e + 3;
    }
    assert(got + Seq::<Seq<char>>::empty() =~= got);
    res
}

// ---------------------------------------------------------------------------
// Deferral while streaming
// ---------------------------------------------------------------------------

/// What a still-streaming block is shown as.
pub open spec fn building_note() -> Seq<char> {
    "\u{1F6E0} Building app UI\u{2026}"@
}

/// `t` with its LAST `fence` block cut off and replaced by the building note
/// while that block is unclosed (no ```` ``` ```` after its fence line).
pub open spec fn defer_spec(t: Seq<char>, fence: Seq<char>) -> Seq<char> {
    match rfind(t, fence) {
        None => t,
        Some(start) => {
            let closed = match find_from(t, nl(), start + fence.len()) {
                Some(n) => contains(t.subrange(n + 1, t.len() as int), fence3()),
                None => false,
            };
            if closed {
                t
            } else {
                t.take(start) + building_note()
            }
        },
    }
}

/// The last occurrence below `k` is at `s` when `p` occurs there and
/// nowhere between `s` and `k`.
proof fn lemma_rfind_at(t: Seq<char>, p: Seq<char>, s: int, k: int)
    requires
        0 <= s < k,
        matches_at(t, s, p),
        forall|m: int| s < m < k ==> !#[trigger] matches_at(t, m, p),
    ensures
        rfind_below(t, p, k) == Some(s),
    decreases k,
{
    if k - 1 > s {
        lemma_rfind_at(t, p, s, k - 1);
    }
}

/// Law: a reply is held back exactly at its last `fence` block while that
/// block is open. For any text `a` (closed blocks included) and any `b` after
/// the fence in which no later `fence` starts: when a ```` ``` ```` follows
/// the first line break of `b`, the block is closed and `a + fence + b` is
/// shown as it is; otherwise it is shown as `a` and the building note, so the
/// open block never reaches the renderer.
pub proof fn lemma_open_last_block_is_held_back(a: Seq<char>, fence: Seq<char>, b: Seq<char>)
    requires
        fence.len() > 0,
        !contains(fence.skip(1) + b, fence),
    ensures
        defer_spec(a + fence + b, fence) == (if (match find(b, nl()) {
            Some(n) => contains(b.skip(n + 1), fence3()),
            None => false,
        }) {
            a + fence + b
        } else {
            a + building_note()
        }),
{
    let t = a + fence + b;
    let s = a.len() as int;
    let f = fence.len() as int;
    let u = fence.skip(1) + b;
    assert(t.subrange(s, s + f) =~= fence);
    lemma_find_from(u, fence, 0);
    assert forall|m: int| s < m < t.len() + 1 implies !#[trigger] matches_at(t, m, fence) by {
        if matches_at(t, m, fence) {
            assert(u.subrange(m - s - 1, m - s - 1 + f) =~= t.subrange(m, m + f));
            assert(matches_at(u, m - s - 1, fence));
        }
    }
    lemma_rfind_at(t, fence, s, (t.len() + 1) as int);
    assert(rfind(t, fence) == Some(s));
    let i = s + f;
    lemma_find_from(b, nl(), 0);
    lemma_find_from(t, nl(), i);
    match find(b, nl()) {
        Some(n) => {
            assert(t.subrange(i + n, i + n + 1) =~= b.subrange(n, n + 1));
            assert forall|k: int| i <= k < i + n implies !#[trigger] matches_at(t, k, nl()) by {
                if matches_at(t, k, nl()) {
                    assert(b.subrange(k - i, k - i + 1) =~= t.subrange(k, k + 1));
                    assert(matches_at(b, k - i, nl()));
                }
            }
            lemma_find_from_unique(t, nl(), i, i + n);
            assert(t.subrange(i + n + 1, t.len() as int) =~= b.skip(n + 1));
        },
        None => {
            if let Some(j) = find_from(t, nl(), i) {
                assert(b.subrange(j - i, j - i + 1) =~= t.subrange(j, j + 1));
                assert(matches_at(b, j - i, nl()));
            }
        },
    }
    assert(t.take(s) =~= a);
}

fn defer_vec(t: &Vec<char>, fence: &str) -> (res: Vec<char>)
    ensures
        res@ == defer_spec(t@, fence@),
{
    let f = chars_of(fence);
    let rs = rfind_str(t, fence);
    let start = match rs {
        None => {
            assert(t@.subrange(0, t.len() as int) =~= t@);
            return slice_vec(t, 0, t.len());
        },
        Some(s) => s,
    };
    proof {
        lemma_rfind_below(t@, fence@, t@.len() + 1int);
        assert(start + f@.len() <= t.len());
    }
    let n = nl_vec();
    let rn = find_from_exec(t, &n, start + f.len());
    let closed = match rn {
        Some(nn) => {
            proof {
                lemma_find_from(t@, n@, start + f@.len());
            }
            let rest = slice_vec(t, nn + 1, t.len());
            let f3 = fence3_vec();
            find_from_exec(&rest, &f3, 0).is_some()
        },
        None => false,
    };
    if closed {
        assert(t@.subrange(0, t.len() as int) =~= t@);
        slice_vec(t, 0, t.len())
    } else {
        let mut r = slice_vec(t, 0, start);
        push_str(&mut r, "\u{1F6E0} Building app UI\u{2026}");
        assert(t@.subrange(0, start as int) =~= t@.take(start as int));
        r
    }
}

/// While a reply is streaming, holds back an unclosed ```` ```runsplash ````
/// block: the text is cut at its fence and a building note shown instead, so
/// the card renders once, when the closing fence arrives.
pub fn defer_unclosed_runsplash(text: &str) -> (res: String)
    ensures
        res@ == defer_spec(text@, "```runsplash"@),
{
    let t = chars_of(text);
    let r = defer_vec(&t, "```runsplash");
    string_of(&r)
}

/// While its fence is still streaming, hides a partial ```` ```runplan ````
/// JSON exactly as a partial Splash program is hidden.
pub fn defer_unclosed_runplan(text: &str) -> (res: String)
    ensures
        res@ == defer_spec(text@, "```runplan"@),
{
    let t = chars_of(text);
    let r = defer_vec(&t, "```runplan");
    string_of(&r)
}

// ---------------------------------------------------------------------------
// Plan fences
// ---------------------------------------------------------------------------

/// The message with its first completed ```` ```runplan ```` block replaced
/// by a ```` ```runsplash ```` block holding `dsl` (the card the plan lowers
/// to); `None` when there is no completed plan block.
pub open spec fn materialize_spec(t: Seq<char>, dsl: Seq<char>) -> Option<Seq<char>> {
    match find(t, "```runplan"@) {
        None => None,
        Some(st) => match find_from(t, nl(), st + "```runplan"@.len()) {
            None => None,
            Some(n) => match find_from(t, fence3(), n + 1) {
                None => None,
                Some(close) => Some(
                    t.take(st) + "```runsplash\n"@ + dsl + (if dsl.len() > 0 && dsl.last() == '\n' {
                        seq![]
                    } else {
                        nl()
                    }) + fence3() + t.skip(close + 3),
                ),
            },
        },
    }
}

/// Replaces a completed plan fence with the Splash card `dsl` that its body
/// (`fenced_body(text, "```runplan")`) lowers to.
pub fn materialize_runplan_for_display(text: &str, dsl: &str) -> (r: Option<String>)
    ensures
        match r {
            Some(s) => materialize_spec(text@, dsl@) == Some(s@),
            None => materialize_spec(text@, dsl@) is None,
        },
{
    let t = chars_of(text);
    let f = chars_of("```runplan");
    proof {
        reveal_strlit("```runplan");
        assert(f@.len() == 10);
    }
    let rs = find_from_exec(&t, &f, 0);
    let st = match rs {
        None => return None,
        Some(s) => s,
    };
    proof {
        lemma_find_from(t@, f@, 0);
        assert(st + f@.len() <= t.len());
    }
    let n = nl_vec();
    let rn = find_from_exec(&t, &n, st + 10);
    let nn = match rn {
        None => return None,
        Some(x) => x,
    };
    proof {
        lemma_find_from(t@, n@, st + 10);
        assert(nn + n@.len() <= t.len());
    }
    let f3 = fence3_vec();
    let rc = find_from_exec(&t, &f3, nn + 1);
    let close = match rc {
        None => return None,
        Some(c) => c,
    };
    proof {
        lemma_find_from(t@, f3@, nn + 1);
    }
    let d = chars_of(dsl);
    let mut out = slice_vec(&t, 0, st);
    push_str(&mut out, "```runsplash\n");
    push_all(&mut out, &d);
    if !(d.len() > 0 && d[d.len() - 1] == '\n') {
        out.push('\n');
    }
    out.push('`');
    out.push('`');
    out.push('`');
    push_range(&mut out, &t, close + 3, t.len());
    proof {
        let tail = if d@.len() > 0 && d@.last() == '\n' {
            Seq::<char>::empty()
        } else {
            nl()
        };
        assert(out@ =~= t@.take(st as int) + "```runsplash\n"@ + d@ + tail + fence3() + t@.skip(close + 3));
    }
    Some(string_of(&out))
}

// ---------------------------------------------------------------------------
// The security guard
// ---------------------------------------------------------------------------

/// The end of a `/* … */` comment whose text starts at `k`: the position of
/// its `*/`, or where the scan runs out.
pub open spec fn block_close(s: Seq<char>, k: int) -> int
    decreases s.len() - k,
{
    if k + 1 >= s.len() || k < 0 {
        k
    } else if s[k] == '*' && s[k + 1] == '/' {
        k
    } else {
        block_close(s, k + 1)
    }
}

pub proof fn lemma_block_close(s: Seq<char>, k: int)
    ensures
        block_close(s, k) >= k,
        k <= s.len() ==> block_close(s, k) <= s.len(),
    decreases s.len() - k,
{
    if k + 1 >= s.len() || k < 0 {
    } else if s[k] == '*' && s[k + 1] == '/' {
    } else {
        lemma_block_close(s, k + 1);
    }
}

/// The scan-only form of `s[i..]`: `//` and `/* */` comments and all ASCII
/// whitespace removed.
pub open spec fn norm_from(s: Seq<char>, i: int) -> Seq<char>
    decreases s.len() + 4 - i,
{
    if i < 0 || i >= s.len() {
        seq![]
    } else if s[i] == '/' && i + 1 < s.len() && s[i + 1] == '/' {
        proof {
            lemma_find_from(s, nl(), i + 2);
        }
        norm_from(s, match find_from(s, nl(), i + 2) {
            Some(j) => j,
            None => s.len() as int,
        })
    } else if s[i] == '/' && i + 1 < s.len() && s[i + 1] == '*' {
        proof {
            lemma_block_close(s, i + 2);
        }
        norm_from(s, block_close(s, i + 2) + 2)
    } else if is_ascii_ws(s[i]) {
        norm_from(s, i + 1)
    } else {
        seq![s[i]] + norm_from(s, i + 1)
    }
}

/// Comments and whitespace removed, so `net . http_request` and
/// `net./*x*/http_request` collapse to one contiguous token.
pub open spec fn normalize_spec(s: Seq<char>) -> Seq<char> {
    norm_from(s, 0)
}

pub fn normalize_vec(t: &Vec<char>) -> (res: Vec<char>)
    ensures
        res@ == normalize_spec(t@),
{
    let n = nl_vec();
    let mut out: Vec<char> = Vec::new();
    let mut i: usize = 0;
    while i < t.len()
        invariant
            n@ == nl(),
            i <= t.len(),
            normalize_spec(t@) == out@ + norm_from(t@, i as int),
        decreases t.len() - i,
    {
        if t[i] == '/' && i + 1 < t.len() && t[i + 1] == '/' {
            proof {
                lemma_find_from(t@, n@, i + 2);
            }
            i = match find_from_exec(t, &n, i + 2) {
                Some(j) => j,
                None => t.len(),
            };
            continue;
        }
        if t[i] == '/' && i + 1 < t.len() && t[i + 1] == '*' {
            let mut k = i + 2;
            while k < t.len() - 1 && !(t[k] == '*' && t[k + 1] == '/')
                invariant
                    i + 2 <= k <= t.len(),
                    block_close(t@, i + 2) == block_close(t@, k as int),
                decreases t.len() - k,
            {
                k += 1;
            }
            proof {
                lemma_block_close(t@, i + 2);
                assert(block_close(t@, k as int) == k);
            }
            if k < t.len() - 1 {
                i = k + 2;
            } else {
                assert(norm_from(t@, k + 2) == Seq::<char>::empty());
                assert(norm_from(t@, t.len() as int) == Seq::<char>::empty());
                i = t.len();
            }
            continue;
        }
        let c = t[i];
        if !(c == ' ' || c == '\t' || c == '\n' || c == '\u{c}' || c == '\r') {
            out.push(c);
        }
        i += 1;
    }
    proof {
        assert(norm_from(t@, i as int) == Seq::<char>::empty());
        assert(out@ + Seq::<char>::empty() =~= out@);
    }
    out
}

/// Strips Splash `//` line and `/* */` block comments and all whitespace,
/// producing the scan-only form the security guard checks.
pub fn normalize_splash_for_scan(s: &str) -> (res: String)
    ensures
        res@ == normalize_spec(s@),
{
    let t = chars_of(s);
    let r = normalize_vec(&t);
    string_of(&r)
}

/// A card body reaches for the low-level `net` API: a `.http_request` /
/// `.socket_…` method on any receiver, or the `net.HttpMethod` enum.
pub open spec fn forbidden_spec(body: Seq<char>) -> bool {
    let n = ascii_lower_seq(normalize_spec(body));
    contains(n, ".http_request"@) || contains(n, ".httprequest"@) || contains(n, "net.httpmethod"@)
        || contains(n, ".socket_"@) || contains(n, ".socketconnect"@)
}

/// The spellings of the low-level net API a card may not use, as they read
/// once comments and whitespace are removed and ASCII letters lower-cased.
pub open spec fn net_api_spellings() -> Seq<Seq<char>> {
    seq![".http_request"@, ".httprequest"@, "net.httpmethod"@, ".socket_"@, ".socketconnect"@]
}

/// Law: a card that reaches the low-level net API is refused, whichever
/// spelling it uses and however it spaces, comments or capitalises it: when
/// its scan-only form holds any of `net_api_spellings`, the lint refuses it.
pub proof fn lemma_net_api_is_refused(body: Seq<char>, k: int)
    requires
        0 <= k < net_api_spellings().len(),
        contains(ascii_lower_seq(normalize_spec(body)), net_api_spellings()[k]),
    ensures
        forbidden_spec(body),
{
}

/// Why a forbidden card is blocked.
pub open spec fn forbidden_reason() -> Seq<char> {
    "card uses the low-level net API (only sys.* + http_resource are allowed)"@
}

pub fn forbidden_vec(body: &Vec<char>) -> (r: Option<&'static str>)
    ensures
        r is Some <==> forbidden_spec(body@),
        r matches Some(s) ==> s@ == forbidden_reason(),
{
    let nrm = normalize_vec(body);
    let n = ascii_lower_vec(&nrm);
    if find_str(&n, ".http_request", 0).is_some() || find_str(&n, ".httprequest", 0).is_some()
        || find_str(&n, "net.httpmethod", 0).is_some() || find_str(&n, ".socket_", 0).is_some()
        || find_str(&n, ".socketconnect", 0).is_some() {
        return Some("card uses the low-level net API (only sys.* + http_resource are allowed)");
    }
    None
}

/// The security lint: a generated card may bind live data only through the
/// `sys.*` helpers and `http_resource`; a body that reaches for the
/// low-level `net` API is refused with the reason.
pub fn runsplash_body_forbidden(body: &str) -> (r: Option<&'static str>)
    ensures
        r is Some <==> forbidden_spec(body@),
        r matches Some(s) ==> s@ == forbidden_reason(),
{
    let t = chars_of(body);
    forbidden_vec(&t)
}

/// The notice a blocked card leaves in its place.
pub open spec fn blocked_notice() -> Seq<char> {
    "\u{26A0} A card was blocked: "@ + forbidden_reason() + ".\n"@
}

/// The end of the line of a ```` ```runsplash ```` fence that starts at `o`
/// (just past its newline, or the end of the text).
pub open spec fn fence_line_end(t: Seq<char>, o: int) -> int {
    match find_from(t, nl(), o + "```runsplash"@.len()) {
        Some(n) => n + 1,
        None => t.len() as int,
    }
}

/// The scan behind `neutralize_forbidden_cards` from `i`: the rewritten text
/// and whether a block was blocked.
pub open spec fn guard_from(t: Seq<char>, i: int) -> (Seq<char>, bool)
    decreases t.len() + 1 - i,
{
    if i < 0 || i > t.len() {
        (seq![], false)
    } else {
        match find_from(t, "```runsplash"@, i) {
            None => (t.subrange(i, t.len() as int), false),
            Some(o) => {
                proof {
                    lemma_find_from(t, "```runsplash"@, i);
                    lemma_find_from(t, nl(), o + "```runsplash"@.len());
                }
                let le = fence_line_end(t, o);
                match find_from(t, fence3(), le) {
                    None => (t.subrange(i, t.len() as int), false),
                    Some(c) => {
                        proof {
                            lemma_find_from(t, fence3(), le);
                            lemma_find_from(t, nl(), c);
                        }
                        if forbidden_spec(t.subrange(le, c)) {
                            let fe = match find_from(t, nl(), c) {
                                Some(n) => n + 1,
                                None => t.len() as int,
                            };
                            let r = guard_from(t, fe);
                            (t.subrange(i, o) + blocked_notice() + r.0, true)
                        } else {
                            let r = guard_from(t, c + 3);
                            (t.subrange(i, c + 3) + r.0, r.1)
                        }
                    },
                }
            },
        }
    }
}

/// Every forbidden ```` ```runsplash ```` block replaced by a notice; the text
/// unchanged (and `false`) when nothing was blocked.
pub open spec fn guard_spec(t: Seq<char>) -> (Seq<char>, bool) {
    if !contains(t, "```runsplash"@) {
        (t, false)
    } else {
        let r = guard_from(t, 0);
        if r.1 {
            r
        } else {
            (t, false)
        }
    }
}

pub fn guard_vec(t: &Vec<char>) -> (res: (Vec<char>, bool))
    ensures
        (res.0@, res.1) == guard_spec(t@),
{
    let mark = chars_of("```runsplash");
    proof {
        reveal_strlit("```runsplash");
    }
    if find_from_exec(t, &mark, 0).is_none() {
        assert(t@.subrange(0, t.len() as int) =~= t@);
        return (slice_vec(t, 0, t.len()), false);
    }
    let n = nl_vec();
    let f3 = fence3_vec();
    let mut out: Vec<char> = Vec::new();
    let mut changed = false;
    let mut i: usize = 0;
    while i <= t.len()
        invariant_except_break
            i <= t.len(),
            guard_from(t@, 0).0 == out@ + guard_from(t@, i as int).0,
            guard_from(t@, 0).1 == (changed || guard_from(t@, i as int).1),
        invariant
            mark@ == "```runsplash"@,
            mark@.len() == 12,
            n@ == nl(),
            f3@ == fence3(),
        ensures
            guard_from(t@, 0) == (out@, changed),
        decreases t.len() + 1 - i,
    {
        let ro = find_from_exec(t, &mark, i);
        let o = match ro {
            None => {
                let ghost before = out@;
                push_range(&mut out, t, i, t.len());
                assert(out@ == before + t@.subrange(i as int, t.len() as int));
                break;
            },
            Some(o) => o,
        };
        proof {
            lemma_find_from(t@, mark@, i as int);
            lemma_find_from(t@, n@, o + 12);
        }
        let le = match find_from_exec(t, &n, o + 12) {
            Some(x) => x + 1,
            None => t.len(),
        };
        let rc = find_from_exec(t, &f3, le);
        let c = match rc {
            None => {
                let ghost before = out@;
                push_range(&mut out, t, i, t.len());
                assert(out@ == before + t@.subrange(i as int, t.len() as int));
                break;
            },
            Some(c) => c,
        };
        proof {
            lemma_find_from(t@, f3@, le as int);
            lemma_find_from(t@, n@, c as int);
        }
        let body = slice_vec(t, le, c);
        match forbidden_vec(&body) {
            Some(reason) => {
                push_range(&mut out, t, i, o);
                push_str(&mut out, "\u{26A0} A card was blocked: ");
                push_str(&mut out, reason);
                push_str(&mut out, ".\n");
                changed = true;
                let fe = match find_from_exec(t, &n, c) {
                    Some(x) => x + 1,
                    None => t.len(),
                };
                i = fe;
            },
            None => {
                push_range(&mut out, t, i, c + 3);
                i = c + 3;
            },
        }
    }
    if changed {
        (out, true)
    } else {
        assert(t@.subrange(0, t.len() as int) =~= t@);
        (slice_vec(t, 0, t.len()), false)
    }
}

/// Neutralises every forbidden ```` ```runsplash ```` block of a message:
/// each unsafe block is replaced by a plain notice, safe blocks and prose are
/// kept verbatim. The flag says whether anything was blocked (the text is
/// returned unchanged when not).
pub fn neutralize_forbidden_cards(text: &str) -> (res: (String, bool))
    ensures
        (res.0@, res.1) == guard_spec(text@),
{
    let t = chars_of(text);
    let (r, b) = guard_vec(&t);
    (string_of(&r), b)
}

// ---------------------------------------------------------------------------
// Rendering the card blocks of a message
// ---------------------------------------------------------------------------

/// `t[i..]` with the body of every ```` ```runsplash ```` block prepared for
/// its card (`card_state_spec`), the closing fence kept on its own line.
pub open spec fn resolve_from(
    t: Seq<char>,
    i: int,
    id: nat,
    st: Map<Seq<char>, Seq<char>>,
    reg: Map<Seq<char>, Seq<char>>,
) -> Seq<char>
    decreases t.len() + 1 - i,
{
    if i < 0 || i > t.len() {
        seq![]
    } else {
        match find_from(t, "```runsplash"@, i) {
            None => t.subrange(i, t.len() as int),
            Some(o) => {
                proof {
                    lemma_find_from(t, "```runsplash"@, i);
                    lemma_find_from(t, nl(), o + "```runsplash"@.len());
                }
                let le = fence_line_end(t, o);
                t.subrange(i, le) + match find_from(t, fence3(), le) {
                    Some(c) => {
                        proof {
                            lemma_find_from(t, fence3(), le);
                        }
                        let sub = card_state_spec(t.subrange(le, c), id, st, reg);
                        sub + (if sub.len() > 0 && sub.last() == '\n' {
                            seq![]
                        } else {
                            nl()
                        }) + resolve_from(t, c, id, st, reg)
                    },
                    None => card_state_spec(t.subrange(le, t.len() as int), id, st, reg),
                }
            },
        }
    }
}

pub open spec fn resolve_spec(
    t: Seq<char>,
    id: nat,
    st: Map<Seq<char>, Seq<char>>,
    reg: Map<Seq<char>, Seq<char>>,
) -> Seq<char> {
    if !contains(t, "```runsplash"@) {
        t
    } else {
        resolve_from(t, 0, id, st, reg)
    }
}

/// Prepares every ```` ```runsplash ```` block of a message for its card
/// (`substitute_card_state`); prose and other fences are left verbatim.
#[verifier::rlimit(80)]
#[verifier::spinoff_prover]
pub fn resolve_a2app_card(text: &str, item_id: usize, state: &CardState, reg: &CardRegistry) -> (res: String)
    ensures
        res@ == resolve_spec(text@, item_id as nat, state@, reg@),
{
    let t = chars_of(text);
    let mark = chars_of("```runsplash");
    proof {
        reveal_strlit("```runsplash");
    }
    if find_from_exec(&t, &mark, 0).is_none() {
        assert(t@.subrange(0, t.len() as int) =~= t@);
        return string_of(&t);
    }
    let n = nl_vec();
    let f3 = fence3_vec();
    let mut out: Vec<char> = Vec::new();
    let mut i: usize = 0;
    while i <= t.len()
        invariant
            t@ == text@,
            mark@ == "```runsplash"@,
            mark@.len() == 12,
            n@ == nl(),
            f3@ == fence3(),
            i <= t.len(),
            resolve_spec(t@, item_id as nat, state@, reg@) == resolve_from(t@, 0, item_id as nat, state@, reg@),
            resolve_from(t@, 0, item_id as nat, state@, reg@) == out@ + resolve_from(
                t@,
                i as int,
                item_id as nat,
                state@,
                reg@,
            ),
        decreases t.len() + 1 - i,
    {
        let ro = find_from_exec(&t, &mark, i);
        let o = match ro {
            None => {
                push_range(&mut out, &t, i, t.len());
                return string_of(&out);
            },
            Some(o) => o,
        };
        proof {
            lemma_find_from(t@, mark@, i as int);
            lemma_find_from(t@, n@, o + 12);
        }
        let le = match find_from_exec(&t, &n, o + 12) {
            Some(x) => x + 1,
            None => t.len(),
        };
        push_range(&mut out, &t, i, le);
        let rc = find_from_exec(&t, &f3, le);
        match rc {
            Some(c) => {
                proof {
                    lemma_find_from(t@, f3@, le as int);
                }
                let body = slice_vec(&t, le, c);
                let sub = card_state_vec(&body, item_id, state, reg);
                push_all(&mut out, &sub);
                if !(sub.len() > 0 && sub[sub.len() - 1] == '\n') {
                    out.push('\n');
                }
                proof {
                    let tail = if sub@.len() > 0 && sub@.last() == '\n' {
                        Seq::<char>::empty()
                    } else {
                        nl()
                    };
                    assert(out@ =~= out@.subrange(0, out@.len() - sub@.len() - tail.len()) + sub@ + tail);
                }
                i = c;
            },
            None => {
                let body = slice_vec(&t, le, t.len());
                let sub = card_state_vec(&body, item_id, state, reg);
                let ghost before = out@;
                push_all(&mut out, &sub);
                assert(out@ =~= before + sub@);
                return string_of(&out);
            },
        }
    }
    string_of(&out)
}

// ---------------------------------------------------------------------------
// HTML card names
// ---------------------------------------------------------------------------

/// `s` with every trailing copy of `p` removed (`str::trim_end_matches`).
pub open spec fn strip_suffixes(s: Seq<char>, p: Seq<char>) -> Seq<char>
    decreases s.len(),
{
    if p.len() > 0 && s.len() >= p.len() && s.subrange(s.len() - p.len(), s.len() as int) == p {
        strip_suffixes(s.take(s.len() - p.len()), p)
    } else {
        s
    }
}

/// The `<!-- name: <slug> -->` directive among the first 15 lines of an HTML
/// card, looked for until real markup (other than a doctype or `<html>`)
/// starts.
pub open spec fn html_name_from(ls: Seq<Seq<char>>, k: int) -> Option<Seq<char>>
    decreases ls.len() - k,
{
    if k < 0 || k >= ls.len() || k >= 15 {
        None
    } else {
        let t = trim(ls[k]);
        let rest = if starts_with(t, "<!-- name:"@) {
            Some(t.skip("<!-- name:"@.len() as int))
        } else if starts_with(t, "<!--name:"@) {
            Some(t.skip("<!--name:"@.len() as int))
        } else {
            None
        };
        let found = match rest {
            Some(r) => {
                let slug = slug_raw(trim(strip_suffixes(trim(r), "-->"@)));
                if slug.len() > 0 {
                    Some(slug)
                } else {
                    None
                }
            },
            None => None,
        };
        let upper = ascii_upper_seq(t);
        if found is Some {
            found
        } else if t.len() > 0 && t[0] == '<' && !starts_with(t, "<!--"@) && !starts_with(
            upper,
            "<!DOCTYPE"@,
        ) && !starts_with(upper, "<HTML"@) {
            None
        } else {
            html_name_from(ls, k + 1)
        }
    }
}

pub open spec fn html_name_spec(body: Seq<char>) -> Option<Seq<char>> {
    html_name_from(lines_spec(body), 0)
}

fn strip_suffixes_vec(t: &Vec<char>, lo: usize, hi: usize) -> (r: usize)
    requires
        lo <= hi <= t.len(),
    ensures
        lo <= r <= hi,
        t@.subrange(lo as int, r as int) == strip_suffixes(t@.subrange(lo as int, hi as int), "-->"@),
{
    proof {
        reveal_strlit("-->");
    }
    let mut h = hi;
    while h - lo >= 3 && t[h - 3] == '-' && t[h - 2] == '-' && t[h - 1] == '>'
        invariant
            lo <= h <= hi <= t.len(),
            "-->"@ == seq!['-', '-', '>'],
            strip_suffixes(t@.subrange(lo as int, hi as int), "-->"@) == strip_suffixes(
                t@.subrange(lo as int, h as int),
                "-->"@,
            ),
        decreases h,
    {
        proof {
            let s = t@.subrange(lo as int, h as int);
            assert(s.subrange(s.len() - 3, s.len() as int) =~= seq!['-', '-', '>']);
            assert(s.take(s.len() - 3) =~= t@.subrange(lo as int, h - 3));
        }
        h -= 3;
    }
    proof {
        let s = t@.subrange(lo as int, h as int);
        if s.len() >= 3 {
            if s.subrange(s.len() - 3, s.len() as int) == seq!['-', '-', '>'] {
                assert(s.subrange(s.len() - 3, s.len() as int)[0] == t@[h - 3]);
                assert(s.subrange(s.len() - 3, s.len() as int)[1] == t@[h - 2]);
                assert(s.subrange(s.len() - 3, s.len() as int)[2] == t@[h - 1]);
            }
        }
    }
    h
}

/// The `<!-- name: <slug> -->` directive the web contract puts on the first
/// line of a `runhtml` card, with the same slug rules as `// name:`.
pub fn extract_html_card_name(body: &str) -> (res: Option<String>)
    ensures
        match res {
            Some(s) => html_name_spec(body@) == Some(s@),
            None => html_name_spec(body@) is None,
        },
{
    let t = chars_of(body);
    let ls = lines_vec(&t);
    proof {
        reveal_strlit("<!-- name:");
        reveal_strlit("<!--name:");
    }
    let mut k: usize = 0;
    while k < ls.len() && k < 15
        invariant
            k <= ls.len(),
            vec_views(ls@) == lines_spec(t@),
            html_name_spec(body@) == html_name_from(vec_views(ls@), k as int),
            t@ == body@,
            "<!-- name:"@.len() == 10,
            "<!--name:"@.len() == 9,
        decreases ls.len() - k,
    {
        let l = &ls[k];
        proof {
            assert(vec_views(ls@)[k as int] == l@);
            assert(l@.subrange(0, l@.len() as int) =~= l@);
        }
        let (lo, hi) = trim_bounds(l, 0, l.len());
        let tt = slice_vec(l, lo, hi);
        let skip: usize = if starts_with_exec(&tt, "<!-- name:") {
            10
        } else if starts_with_exec(&tt, "<!--name:") {
            9
        } else {
            0
        };
        if skip > 0 {
            let (a, b) = trim_bounds(&tt, skip, tt.len());
            let e = strip_suffixes_vec(&tt, a, b);
            let (a2, b2) = trim_bounds(&tt, a, e);
            let sl = slug_raw_vec(&tt, a2, b2);
            proof {
                assert(tt@.skip(skip as int) =~= tt@.subrange(skip as int, tt@.len() as int));
            }
            if sl.len() > 0 {
                return Some(string_of(&sl));
            }
        }
        let up = ascii_upper_vec(&tt);
        if tt.len() > 0 && tt[0] == '<' && !starts_with_exec(&tt, "<!--") && !starts_with_exec(
            &up,
            "<!DOCTYPE",
        ) && !starts_with_exec(&up, "<HTML") {
            return None;
        }
        k += 1;
    }
    None
}

// ---------------------------------------------------------------------------
// The guard leaves nothing to block
// ---------------------------------------------------------------------------

/// A search from inside `y` gives the same answer in `x + y`, shifted.
pub proof fn lemma_find_shift(x: Seq<char>, y: Seq<char>, p: Seq<char>, j: int)
    requires
        0 <= j,
    ensures
        find_from(x + y, p, x.len() + j) == (match find_from(y, p, j) {
            Some(k) => Some(k + x.len()),
            None => None,
        }),
    decreases y.len() + 1 - j,
{
    let t = x + y;
    if j + p.len() <= y.len() {
        assert(t.subrange(x.len() + j, x.len() + j + p.len()) =~= y.subrange(j, j + p.len()));
        if !matches_at(y, j, p) {
            lemma_find_shift(x, y, p, j + 1);
        }
    }
}

/// A first match that lies inside a window on which two texts agree is the
/// first match in both.
pub proof fn lemma_find_agree(u: Seq<char>, v: Seq<char>, p: Seq<char>, a: int, b: int)
    requires
        0 <= a,
        b <= u.len(),
        b <= v.len(),
        forall|k: int| 0 <= k < b ==> u[k] == v[k],
        find_from(u, p, a) matches Some(m) && m + p.len() <= b,
    ensures
        find_from(v, p, a) == find_from(u, p, a),
{
    lemma_find_from(u, p, a);
    let m = find_from(u, p, a)->Some_0;
    assert(v.subrange(m, m + p.len()) =~= u.subrange(m, m + p.len()));
    assert forall|k: int| a <= k < m implies !matches_at(v, k, p) by {
        assert(!matches_at(u, k, p));
        assert(v.subrange(k, k + p.len()) =~= u.subrange(k, k + p.len()));
    }
    lemma_find_from_unique(v, p, a, m);
}

/// With no match in `[i, j)`, a search from `i` finds what one from `j` does.
pub proof fn lemma_find_skip(t: Seq<char>, p: Seq<char>, i: int, j: int)
    requires
        0 <= i <= j,
        forall|k: int| i <= k < j ==> !matches_at(t, k, p),
    ensures
        find_from(t, p, i) == find_from(t, p, j),
{
    lemma_find_from(t, p, i);
    lemma_find_from(t, p, j);
    match find_from(t, p, j) {
        Some(m) => lemma_find_from_unique(t, p, i, m),
        None => {},
    }
}

/// The guard's scan of `x + y` from inside `y` is its scan of `y`.
pub proof fn lemma_guard_shift(x: Seq<char>, y: Seq<char>, j: int)
    requires
        0 <= j,
    ensures
        guard_from(x + y, x.len() + j) == guard_from(y, j),
    decreases y.len() + 1 - j,
{
    reveal_strlit("```runsplash");
    let t = x + y;
    let i = x.len() + j;
    let mark = "```runsplash"@;
    if j > y.len() {
    } else {
        lemma_find_shift(x, y, mark, j);
        lemma_find_from(y, mark, j);
        match find_from(y, mark, j) {
            None => {
                assert(t.subrange(i, t.len() as int) =~= y.subrange(j, y.len() as int));
            },
            Some(o) => {
                let oo = o + x.len();
                lemma_find_shift(x, y, nl(), o + 12);
                lemma_find_from(y, nl(), o + 12);
                let le = fence_line_end(y, o);
                assert(fence_line_end(t, oo) == le + x.len());
                lemma_find_shift(x, y, fence3(), le);
                lemma_find_from(y, fence3(), le);
                match find_from(y, fence3(), le) {
                    None => {
                        assert(t.subrange(i, t.len() as int) =~= y.subrange(j, y.len() as int));
                    },
                    Some(c) => {
                        assert(t.subrange(le + x.len(), c + x.len()) =~= y.subrange(le, c));
                        lemma_find_shift(x, y, nl(), c);
                        lemma_find_from(y, nl(), c);
                        if forbidden_spec(y.subrange(le, c)) {
                            let fe = match find_from(y, nl(), c) {
                                Some(n) => n + 1,
                                None => y.len() as int,
                            };
                            lemma_guard_shift(x, y, fe);
                            assert(t.subrange(i, oo) =~= y.subrange(j, o));
                        } else {
                            lemma_guard_shift(x, y, c + 3);
                            assert(t.subrange(i, c + 3 + x.len()) =~= y.subrange(j, c + 3));
                        }
                    },
                }
            },
        }
    }
}

/// With no fence in `[i, j)`, the scan from `i` copies `t[i..j]` and goes on
/// as the scan from `j`.
pub proof fn lemma_guard_skip(t: Seq<char>, i: int, j: int)
    requires
        0 <= i <= j <= t.len(),
        forall|k: int| i <= k < j ==> !matches_at(t, k, "```runsplash"@),
    ensures
        guard_from(t, i) == (t.subrange(i, j) + guard_from(t, j).0, guard_from(t, j).1),
{
    reveal_strlit("```runsplash");
    let mark = "```runsplash"@;
    lemma_find_skip(t, mark, i, j);
    lemma_find_from(t, mark, j);
    match find_from(t, mark, j) {
        None => {
            assert(t.subrange(i, t.len() as int) =~= t.subrange(i, j) + t.subrange(j, t.len() as int));
        },
        Some(o) => {
            assert(t.subrange(i, o) =~= t.subrange(i, j) + t.subrange(j, o));
            let le = fence_line_end(t, o);
            match find_from(t, fence3(), le) {
                None => {
                    assert(t.subrange(i, t.len() as int) =~= t.subrange(i, j) + t.subrange(j, t.len() as int));
                },
                Some(c) => {
                    lemma_find_from(t, nl(), o + 12);
                    lemma_find_from(t, fence3(), le);
                    assert(t.subrange(i, c + 3) =~= t.subrange(i, j) + t.subrange(j, c + 3));
                    if forbidden_spec(t.subrange(le, c)) {
                        let r = guard_from(t, j);
                        assert(t.subrange(i, o) + blocked_notice() + guard_from(
                            t,
                            match find_from(t, nl(), c) {
                                Some(n) => n + 1,
                                None => t.len() as int,
                            },
                        ).0 =~= t.subrange(i, j) + (t.subrange(j, o) + blocked_notice() + guard_from(
                            t,
                            match find_from(t, nl(), c) {
                                Some(n) => n + 1,
                                None => t.len() as int,
                            },
                        ).0));
                    } else {
                        assert(t.subrange(i, c + 3) + guard_from(t, c + 3).0 =~= t.subrange(i, j) + (
                        t.subrange(j, c + 3) + guard_from(t, c + 3).0));
                    }
                },
            }
        },
    }
}

/// The notice holds no backtick, so no fence can start inside it.
proof fn lemma_notice_has_no_backtick()
    ensures
        forall|k: int| 0 <= k < blocked_notice().len() ==> blocked_notice()[k] != '`',
        blocked_notice().len() >= 12,
        blocked_notice()[0] == '\u{26A0}',
{
    reveal_strlit("\u{26A0} A card was blocked: ");
    reveal_strlit("card uses the low-level net API (only sys.* + http_resource are allowed)");
    reveal_strlit(".\n");
}

/// A blocked block's notice, followed by text the guard leaves as it is, is
/// itself left as it is.
proof fn lemma_settles_blocked(t: Seq<char>, i: int, o: int, r: Seq<char>)
    requires
        0 <= i <= o <= t.len(),
        forall|k: int| i <= k < o ==> !matches_at(t, k, "```runsplash"@),
        guard_from(r, 0) == (r, false),
    ensures
        guard_from(t.subrange(i, o) + blocked_notice() + r, 0) == (t.subrange(i, o) + blocked_notice()
            + r, false),
{
    reveal_strlit("```runsplash");
    let mark = "```runsplash"@;
    let x = t.subrange(i, o) + blocked_notice();
    let z = x + r;
    lemma_notice_has_no_backtick();
    assert forall|k: int| 0 <= k < x.len() implies !matches_at(z, k, mark) by {
        if matches_at(z, k, mark) {
            assert(z.subrange(k, k + 12)[0] == z[k]);
            if k < o - i {
                if k + 12 <= o - i {
                    assert(z.subrange(k, k + 12) =~= t.subrange(i + k, i + k + 12));
                    assert(!matches_at(t, i + k, mark));
                } else {
                    assert(z[o - i] == blocked_notice()[0]);
                    assert(z.subrange(k, k + 12)[o - i - k] == z[o - i]);
                }
            } else {
                assert(z[k] == blocked_notice()[k - (o - i)]);
            }
        }
    }
    lemma_guard_skip(z, 0, x.len() as int);
    lemma_guard_shift(x, r, 0);
    assert(z.subrange(0, x.len() as int) =~= x);
    assert(t.subrange(i, o) + blocked_notice() + r == z);
}

/// A kept block, followed by text the guard leaves as it is, is itself left as
/// it is.
#[verifier::rlimit(30)]
proof fn lemma_settles_kept(t: Seq<char>, i: int, o: int, c: int, r: Seq<char>)
    requires
        0 <= i <= o,
        c + 3 <= t.len(),
        find_from(t, "```runsplash"@, i) == Some(o),
        fence_line_end(t, o) <= c,
        find_from(t, fence3(), fence_line_end(t, o)) == Some(c),
        !forbidden_spec(t.subrange(fence_line_end(t, o), c)),
        guard_from(r, 0) == (r, false),
    ensures
        guard_from(t.subrange(i, c + 3) + r, 0) == (t.subrange(i, c + 3) + r, false),
{
    reveal_strlit("```runsplash");
    let mark = "```runsplash"@;
    let x = t.subrange(i, c + 3);
    let z = x + r;
    let zp = t.take(i) + z;
    lemma_find_from(t, mark, i);
    let le = fence_line_end(t, o);
    lemma_find_from(t, nl(), o + 12);
    assert(o + 12 <= le);
    assert(zp =~= t.take(c + 3) + r);
    assert forall|k: int| 0 <= k < c + 3 implies t[k] == zp[k] by {}
    lemma_find_agree(t, zp, mark, i, c + 3);
    match find_from(t, nl(), o + 12) {
        Some(n) => {
            lemma_find_agree(t, zp, nl(), o + 12, c + 3);
        },
        None => {},
    }
    assert(fence_line_end(zp, o) == le);
    lemma_find_from(t, fence3(), le);
    lemma_find_agree(t, zp, fence3(), le, c + 3);
    assert(zp.subrange(le, c) =~= t.subrange(le, c));
    lemma_guard_shift(t.take(c + 3), r, 0);
    lemma_guard_shift(t.take(i), z, 0);
    assert(zp.subrange(i, c + 3) =~= x);
}

/// What the guard leaves from `i` on, scanned again, is left as it is and has
/// nothing blocked.
pub proof fn lemma_guard_from_settles(t: Seq<char>, i: int)
    requires
        0 <= i <= t.len(),
    ensures
        guard_from(guard_from(t, i).0, 0) == (guard_from(t, i).0, false),
    decreases t.len() + 1 - i,
{
    reveal_strlit("```runsplash");
    let mark = "```runsplash"@;
    let w = t.skip(i);
    assert(t.take(i) + w =~= t);
    lemma_guard_shift(t.take(i), w, 0);
    lemma_find_from(t, mark, i);
    match find_from(t, mark, i) {
        None => {},
        Some(o) => {
            lemma_find_from(t, nl(), o + 12);
            let le = fence_line_end(t, o);
            lemma_find_from(t, fence3(), le);
            match find_from(t, fence3(), le) {
                None => {},
                Some(c) => {
                    lemma_find_from(t, nl(), c);
                    if forbidden_spec(t.subrange(le, c)) {
                        let fe = match find_from(t, nl(), c) {
                            Some(n) => n + 1,
                            None => t.len() as int,
                        };
                        lemma_guard_from_settles(t, fe);
                        lemma_settles_blocked(t, i, o, guard_from(t, fe).0);
                    } else {
                        lemma_guard_from_settles(t, c + 3);
                        lemma_settles_kept(t, i, o, c, guard_from(t, c + 3).0);
                    }
                },
            }
        },
    }
}

/// Neutralising is done in one pass: a neutralised message, guarded again, is
/// returned unchanged with nothing blocked. No forbidden block the guard can
/// see survives it.
pub proof fn lemma_guard_idempotent(t: Seq<char>)
    ensures
        guard_spec(guard_spec(t).0) == (guard_spec(t).0, false),
{
    lemma_guard_from_settles(t, 0);
}

// ---------------------------------------------------------------------------
// Seed cards
// ---------------------------------------------------------------------------

/// Whether a card file's (trimmed) text is an HTML document.
pub open spec fn is_html_card(t: Seq<char>) -> bool {
    starts_with(t, "<!DOCTYPE"@) || starts_with(t, "<!--"@) || starts_with(t, "<html"@)
}

/// A card file as the chat message that shows it: its trimmed text in a
/// ```` ```runhtml ```` fence when it is an HTML document, else in a
/// ```` ```runsplash ```` one.
pub open spec fn seed_card_spec(body: Seq<char>) -> Seq<char> {
    let t = trim(body);
    "```"@ + (if is_html_card(t) {
        "runhtml"@
    } else {
        "runsplash"@
    }) + "\n"@ + t + "\n```"@
}

/// The message a seeded card file (shown at start-up) becomes.
pub fn seed_card_message(body: &str) -> (r: String)
    ensures
        r@ == seed_card_spec(body@),
{
    let b = chars_of(body);
    let t = crate::text::trim_vec(&b);
    let html = starts_with_exec(&t, "<!DOCTYPE") || starts_with_exec(&t, "<!--") || starts_with_exec(
        &t,
        "<html",
    );
    let mut out = chars_of("```");
    if html {
        push_str(&mut out, "runhtml");
    } else {
        push_str(&mut out, "runsplash");
    }
    push_str(&mut out, "\n");
    push_all(&mut out, &t);
    push_str(&mut out, "\n```");
    string_of(&out)
}

// ---------------------------------------------------------------------------
// The text shown and the text stored
// ---------------------------------------------------------------------------

/// `t` with its completed plan block shown as the card `lowered` (what the
/// plan lowers to, `None` when it did not lower), else `t` as it is.
pub open spec fn materialized(t: Seq<char>, lowered: Option<Seq<char>>) -> Seq<char> {
    match lowered {
        Some(d) => match materialize_spec(t, d) {
            Some(x) => x,
            None => t,
        },
        None => t,
    }
}

fn materialized_exec(t: &str, lowered: Option<&str>) -> (r: String)
    ensures
        r@ == materialized(
            t@,
            match lowered {
                Some(d) => Some(d@),
                None => None,
            },
        ),
{
    match lowered {
        Some(d) => match materialize_runplan_for_display(t, d) {
            Some(x) => x,
            None => string_of(&chars_of(t)),
        },
        None => string_of(&chars_of(t)),
    }
}

/// What a finished turn stores: its plan block shown as its card, then
/// every forbidden card replaced by its notice, so neither a plan's JSON nor
/// a forbidden fence survives in the history.
pub open spec fn stored_turn_spec(text: Seq<char>, lowered: Option<Seq<char>>) -> Seq<char> {
    guard_spec(materialized(text, lowered)).0
}

/// The text a finished turn is stored as; `lowered` is the card its plan
/// lowers to, if it has one.
pub fn stored_turn_text(text: &str, lowered: Option<&str>) -> (r: String)
    ensures
        r@ == stored_turn_spec(
            text@,
            match lowered {
                Some(d) => Some(d@),
                None => None,
            },
        ),
{
    let m = materialized_exec(text, lowered);
    let (g, _) = neutralize_forbidden_cards(m.as_str());
    g
}

/// What the reply streaming in shows: `…` before the first token; then, in
/// this order, an unclosed plan block held back, a completed plan shown as
/// its card (`lowered`), an unclosed Splash block held back, and every
/// forbidden card replaced by its notice.
pub open spec fn streaming_view_spec(streaming: Seq<char>, lowered: Option<Seq<char>>) -> Seq<char> {
    if streaming.len() == 0 {
        "\u{2026}"@
    } else {
        let plan_held = defer_spec(streaming, "```runplan"@);
        let shown = materialized(plan_held, lowered);
        guard_spec(defer_spec(shown, "```runsplash"@)).0
    }
}

/// The text shown for the reply still streaming in.
pub fn streaming_view_text(streaming: &str, lowered: Option<&str>) -> (r: String)
    ensures
        r@ == streaming_view_spec(
            streaming@,
            match lowered {
                Some(d) => Some(d@),
                None => None,
            },
        ),
{
    let s = chars_of(streaming);
    if s.len() == 0 {
        return string_of(&chars_of("\u{2026}"));
    }
    let held = defer_unclosed_runplan(streaming);
    let shown = materialized_exec(held.as_str(), lowered);
    let deferred = defer_unclosed_runsplash(shown.as_str());
    let (g, _) = neutralize_forbidden_cards(deferred.as_str());
    g
}

} // verus!
