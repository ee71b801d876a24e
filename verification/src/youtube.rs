//! Keeping a youtube card's live streams current: the channel handles a card
//! declares, the live video ids swapped in for them, and the id read off a
//! channel's live page.
use vstd::prelude::*;
use crate::keyed::KeyedMap;
use crate::text::{
    chars_of, contains, find, find_str, lemma_find_from, push_all, push_range, replace_all,
    replace_str, slice_vec, string_of, trim, trim_bounds, utf8_len, utf8_len_is, vec_eq,
};

verus! {

/// The current live video id of each channel handle that has been resolved.
pub type LiveIds = KeyedMap<String>;

// ---------------------------------------------------------------------------
// Character runs
// ---------------------------------------------------------------------------

/// The first position `>= k` holding `c` (the length when none).
pub open spec fn char_end(s: Seq<char>, k: int, c: char) -> int
    decreases s.len() - k,
{
    if k < 0 || k >= s.len() {
        s.len() as int
    } else if s[k] == c {
        k
    } else {
        char_end(s, k + 1, c)
    }
}

pub proof fn lemma_char_end(s: Seq<char>, k: int, c: char)
    requires
        0 <= k <= s.len(),
    ensures
        k <= char_end(s, k, c) <= s.len(),
    decreases s.len() - k,
{
    if k < s.len() && s[k] != c {
        lemma_char_end(s, k + 1, c);
    }
}

pub fn char_end_vec(t: &Vec<char>, k: usize, c: char) -> (r: usize)
    requires
        k <= t.len(),
    ensures
        r == char_end(t@, k as int, c),
        k <= r <= t.len(),
{
    let mut e = k;
    while e < t.len() && t[e] != c
        invariant
            k <= e <= t.len(),
            char_end(t@, k as int, c) == char_end(t@, e as int, c),
        decreases t.len() - e,
    {
        e += 1;
    }
    e
}

/// The number of leading copies of `c`.
pub open spec fn run_prefix(s: Seq<char>, c: char) -> nat
    decreases s.len(),
{
    if s.len() > 0 && s[0] == c {
        1 + run_prefix(s.drop_first(), c)
    } else {
        0
    }
}

/// The number of trailing copies of `c`.
pub open spec fn run_suffix(s: Seq<char>, c: char) -> nat
    decreases s.len(),
{
    if s.len() > 0 && s.last() == c {
        1 + run_suffix(s.drop_last(), c)
    } else {
        0
    }
}

/// `s` with every leading and trailing `c` removed (`str::trim_matches`).
pub open spec fn trim_char(s: Seq<char>, c: char) -> Seq<char> {
    let a = s.skip(run_prefix(s, c) as int);
    a.take(a.len() - run_suffix(a, c))
}

pub proof fn lemma_run_prefix_is(s: Seq<char>, c: char, n: int)
    requires
        0 <= n <= s.len(),
        forall|k: int| 0 <= k < n ==> s[k] == c,
        n < s.len() ==> s[n] != c,
    ensures
        run_prefix(s, c) == n,
    decreases n,
{
    if n > 0 {
        lemma_run_prefix_is(s.drop_first(), c, n - 1);
    }
}

pub proof fn lemma_run_suffix_is(s: Seq<char>, c: char, n: int)
    requires
        0 <= n <= s.len(),
        forall|k: int| s.len() - n <= k < s.len() ==> s[k] == c,
        n < s.len() ==> s[s.len() - n - 1] != c,
    ensures
        run_suffix(s, c) == n,
    decreases n,
{
    if n > 0 {
        lemma_run_suffix_is(s.drop_last(), c, n - 1);
    }
}

/// The bounds of `trim_char(t[a..b], c)` inside `t`.
fn trim_char_bounds(t: &Vec<char>, a: usize, b: usize, c: char) -> (r: (usize, usize))
    requires
        a <= b <= t.len(),
    ensures
        a <= r.0 <= r.1 <= b,
        t@.subrange(r.0 as int, r.1 as int) == trim_char(t@.subrange(a as int, b as int), c),
{
    let ghost s = t@.subrange(a as int, b as int);
    let mut lo = a;
    while lo < b && t[lo] == c
        invariant
            a <= lo <= b <= t.len(),
            forall|k: int| a <= k < lo ==> t@[k] == c,
        decreases b - lo,
    {
        lo += 1;
    }
    proof {
        lemma_run_prefix_is(s, c, lo - a);
        assert(s.skip(lo - a) =~= t@.subrange(lo as int, b as int));
    }
    let mut hi = b;
    while hi > lo && t[hi - 1] == c
        invariant
            a <= lo <= hi <= b <= t.len(),
            forall|k: int| hi <= k < b ==> t@[k] == c,
        decreases hi,
    {
        hi -= 1;
    }
    proof {
        let ts = t@.subrange(lo as int, b as int);
        lemma_run_suffix_is(ts, c, b - hi);
        assert(ts.take(ts.len() - (b - hi)) =~= t@.subrange(lo as int, hi as int));
    }
    (lo, hi)
}

// ---------------------------------------------------------------------------
// The handles a card declares
// ---------------------------------------------------------------------------

/// The `sep`-separated pieces of `s[i..]` (`str::split(sep)`).
pub open spec fn pieces_from(s: Seq<char>, i: int, sep: char) -> Seq<Seq<char>>
    decreases s.len() + 1 - i,
{
    if i < 0 || i > s.len() {
        seq![]
    } else {
        proof {
            lemma_char_end(s, i, sep);
        }
        let e = char_end(s, i, sep);
        seq![s.subrange(i, e)] + (if e < s.len() {
            pieces_from(s, e + 1, sep)
        } else {
            seq![]
        })
    }
}

/// `name: handle` as a pair, each side trimmed of whitespace and `"`; `None`
/// without a `:` or with an empty side.
pub open spec fn handle_pair(p: Seq<char>) -> Option<(Seq<char>, Seq<char>)> {
    let c = char_end(p, 0, ':');
    if c >= p.len() {
        None
    } else {
        let name = trim_char(trim(p.take(c)), '"');
        let handle = trim_char(trim(p.skip(c + 1)), '"');
        if name.len() > 0 && handle.len() > 0 {
            Some((name, handle))
        } else {
            None
        }
    }
}

/// The pairs the pieces `ps` hold, in order.
pub open spec fn handle_pairs(ps: Seq<Seq<char>>) -> Seq<(Seq<char>, Seq<char>)>
    decreases ps.len(),
{
    if ps.len() == 0 {
        seq![]
    } else {
        let rest = handle_pairs(ps.drop_last());
        match handle_pair(ps.last()) {
            Some(h) => rest.push(h),
            None => rest,
        }
    }
}

/// The `octos.handles { name: handle, … }` map a card declares (channel name
/// to youtube handle), in order; empty when the card declares none.
pub open spec fn card_handles(card: Seq<char>) -> Seq<(Seq<char>, Seq<char>)> {
    match find(card, "octos.handles"@) {
        None => seq![],
        Some(at) => {
            let open = char_end(card, at, '{');
            if open >= card.len() {
                seq![]
            } else {
                let close = char_end(card, open + 1, '}');
                if close >= card.len() {
                    seq![]
                } else {
                    handle_pairs(pieces_from(card.subrange(open + 1, close), 0, ','))
                }
            }
        },
    }
}

pub open spec fn pairs_view(v: Seq<(Vec<char>, Vec<char>)>) -> Seq<(Seq<char>, Seq<char>)> {
    v.map_values(|p: (Vec<char>, Vec<char>)| (p.0@, p.1@))
}

fn handle_pair_vec(p: &Vec<char>) -> (r: Option<(Vec<char>, Vec<char>)>)
    ensures
        match r {
            Some(h) => handle_pair(p@) == Some((h.0@, h.1@)),
            None => handle_pair(p@) is None,
        },
{
    let c = char_end_vec(p, 0, ':');
    if c >= p.len() {
        return None;
    }
    let (a, b) = trim_bounds(p, 0, c);
    let (a2, b2) = trim_char_bounds(p, a, b, '"');
    let name = slice_vec(p, a2, b2);
    let (d, e) = trim_bounds(p, c + 1, p.len());
    let (d2, e2) = trim_char_bounds(p, d, e, '"');
    let handle = slice_vec(p, d2, e2);
    proof {
        assert(p@.take(c as int) =~= p@.subrange(0, c as int));
        assert(p@.skip(c + 1) =~= p@.subrange(c + 1, p.len() as int));
    }
    if name.len() > 0 && handle.len() > 0 {
        Some((name, handle))
    } else {
        None
    }
}

fn card_handles_vec(t: &Vec<char>) -> (r: Vec<(Vec<char>, Vec<char>)>)
    ensures
        pairs_view(r@) == card_handles(t@),
{
    let mut r: Vec<(Vec<char>, Vec<char>)> = Vec::new();
    let ra = find_str(t, "octos.handles", 0);
    let at = match ra {
        None => {
            assert(pairs_view(r@) =~= Seq::<(Seq<char>, Seq<char>)>::empty());
            return r;
        },
        Some(at) => at,
    };
    proof {
        lemma_find_from(t@, "octos.handles"@, 0);
    }
    let open = char_end_vec(t, at, '{');
    if open >= t.len() {
        assert(pairs_view(r@) =~= Seq::<(Seq<char>, Seq<char>)>::empty());
        return r;
    }
    let close = char_end_vec(t, open + 1, '}');
    if close >= t.len() {
        assert(pairs_view(r@) =~= Seq::<(Seq<char>, Seq<char>)>::empty());
        return r;
    }
    let inner = slice_vec(t, open + 1, close);
    let ghost done: Seq<Seq<char>> = seq![];
    let mut i: usize = 0;
    assert(pairs_view(r@) =~= handle_pairs(done));
    assert(pieces_from(inner@, 0, ',') =~= done + pieces_from(inner@, 0, ','));
    loop
        invariant
            i <= inner.len(),
            card_handles(t@) == handle_pairs(pieces_from(inner@, 0, ',')),
            pieces_from(inner@, 0, ',') == done + pieces_from(inner@, i as int, ','),
            pairs_view(r@) == handle_pairs(done),
        decreases inner.len() - i,
    {
        let e = char_end_vec(&inner, i, ',');
        let piece = slice_vec(&inner, i, e);
        let ghost before = r@;
        match handle_pair_vec(&piece) {
            Some(h) => {
                r.push(h);
                assert(pairs_view(r@) =~= pairs_view(before).push((h.0@, h.1@)));
            },
            None => {},
        }
        proof {
            let nd = done.push(piece@);
            assert(nd.drop_last() =~= done);
            assert(handle_pairs(nd) == pairs_view(r@));
            if e < inner.len() {
                assert(done + pieces_from(inner@, i as int, ',') =~= nd + pieces_from(inner@, e + 1, ','));
            } else {
                assert(done + pieces_from(inner@, i as int, ',') =~= nd);
            }
            done = nd;
        }
        if e >= inner.len() {
            return r;
        }
        i = e + 1;
    }
}

// ---------------------------------------------------------------------------
// Refreshing the live ids
// ---------------------------------------------------------------------------

/// The handle of the first pair named `name` in `hs[k..]`.
pub open spec fn handle_for(hs: Seq<(Seq<char>, Seq<char>)>, name: Seq<char>, k: int) -> Option<Seq<char>>
    decreases hs.len() - k,
{
    if k < 0 || k >= hs.len() {
        None
    } else if hs[k].0 == name {
        Some(hs[k].1)
    } else {
        handle_for(hs, name, k + 1)
    }
}

/// One line of a card: when it is a `live:1` entry whose channel (`ch:"…"`)
/// maps to a handle with a resolved live id that differs from its `id:"…"`,
/// that id replaced; otherwise the line unchanged.
pub open spec fn patched_line(
    line: Seq<char>,
    hs: Seq<(Seq<char>, Seq<char>)>,
    live: Map<Seq<char>, Seq<char>>,
) -> Seq<char> {
    if !contains(line, "live:1"@) {
        line
    } else {
        match find(line, "ch:\""@) {
            None => line,
            Some(c0) => {
                let ch_at = c0 + 4;
                let ch_end = char_end(line, ch_at, '"');
                if ch_end >= line.len() {
                    line
                } else {
                    match handle_for(hs, line.subrange(ch_at, ch_end), 0) {
                        None => line,
                        Some(h) => if !live.contains_key(h) {
                            line
                        } else {
                            match find(line, "id:\""@) {
                                None => line,
                                Some(i0) => {
                                    let id_at = i0 + 4;
                                    let id_end = char_end(line, id_at, '"');
                                    if id_end >= line.len() || line.subrange(id_at, id_end)
                                        == live[h] {
                                        line
                                    } else {
                                        line.take(id_at) + live[h] + line.skip(id_end)
                                    }
                                },
                            }
                        },
                    }
                }
            },
        }
    }
}

/// The lines of `card[i..]` (each with its `'\n'`), each patched.
pub open spec fn patched_from(
    card: Seq<char>,
    i: int,
    hs: Seq<(Seq<char>, Seq<char>)>,
    live: Map<Seq<char>, Seq<char>>,
) -> Seq<char>
    decreases card.len() - i,
{
    if i < 0 || i >= card.len() {
        seq![]
    } else {
        proof {
            lemma_char_end(card, i, '\n');
        }
        let nl = char_end(card, i, '\n');
        let e = if nl < card.len() {
            nl + 1
        } else {
            card.len() as int
        };
        patched_line(card.subrange(i, e), hs, live) + patched_from(card, e, hs, live)
    }
}

/// A youtube card with the live id of every `live:1` entry refreshed from
/// `live`, through the card's own channel-to-handle map.
pub open spec fn patch_live_spec(card: Seq<char>, live: Map<Seq<char>, Seq<char>>) -> Seq<char> {
    patched_from(card, 0, card_handles(card), live)
}

fn handle_for_vec(hs: &Vec<(Vec<char>, Vec<char>)>, name: &Vec<char>) -> (r: Option<Vec<char>>)
    ensures
        match r {
            Some(h) => handle_for(pairs_view(hs@), name@, 0) == Some(h@),
            None => handle_for(pairs_view(hs@), name@, 0) is None,
        },
{
    let mut k: usize = 0;
    while k < hs.len()
        invariant
            k <= hs.len(),
            handle_for(pairs_view(hs@), name@, 0) == handle_for(pairs_view(hs@), name@, k as int),
        decreases hs.len() - k,
    {
        if vec_eq(&hs[k].0, name) {
            let h = &hs[k].1;
            return Some(slice_vec(h, 0, h.len()));
        }
        k += 1;
    }
    None
}

fn patched_line_vec(line: &Vec<char>, hs: &Vec<(Vec<char>, Vec<char>)>, live: &LiveIds) -> (r: Vec<char>)
    ensures
        r@ == patched_line(line@, pairs_view(hs@), live@),
{
    let whole = slice_vec(line, 0, line.len());
    assert(whole@ =~= line@);
    if find_str(line, "live:1", 0).is_none() {
        return whole;
    }
    proof {
        reveal_strlit("ch:\"");
        reveal_strlit("id:\"");
    }
    let rc = find_str(line, "ch:\"", 0);
    let c0 = match rc {
        None => return whole,
        Some(c) => c,
    };
    proof {
        lemma_find_from(line@, "ch:\""@, 0);
    }
    let ch_at = c0 + 4;
    let ch_end = char_end_vec(line, ch_at, '"');
    if ch_end >= line.len() {
        return whole;
    }
    let name = slice_vec(line, ch_at, ch_end);
    let h = match handle_for_vec(hs, &name) {
        None => return whole,
        Some(h) => h,
    };
    let fresh = match live.get_chars(&h) {
        None => return whole,
        Some(f) => f,
    };
    let ri = find_str(line, "id:\"", 0);
    let i0 = match ri {
        None => return whole,
        Some(i) => i,
    };
    proof {
        lemma_find_from(line@, "id:\""@, 0);
    }
    let id_at = i0 + 4;
    let id_end = char_end_vec(line, id_at, '"');
    if id_end >= line.len() {
        return whole;
    }
    let cur = slice_vec(line, id_at, id_end);
    let fv = chars_of(fresh.as_str());
    if vec_eq(&cur, &fv) {
        return whole;
    }
    let mut out = slice_vec(line, 0, id_at);
    push_all(&mut out, &fv);
    push_range(&mut out, line, id_end, line.len());
    proof {
        assert(line@.take(id_at as int) =~= line@.subrange(0, id_at as int));
        assert(line@.skip(id_end as int) =~= line@.subrange(id_end as int, line.len() as int));
    }
    out
}

/// Refreshes the live video ids in a composed youtube card. Live ids go stale
/// within days; the card's `octos.handles` map (channel name to youtube handle)
/// keys each `live:1` entry to the id resolved for its handle in `live`.
/// Every other line is kept as it is.
pub fn patch_youtube_live_ids(card: &str, live: &LiveIds) -> (r: String)
    ensures
        r@ == patch_live_spec(card@, live@),
{
    let t = chars_of(card);
    let hs = card_handles_vec(&t);
    let mut out: Vec<char> = Vec::new();
    let mut i: usize = 0;
    while i < t.len()
        invariant
            i <= t.len(),
            pairs_view(hs@) == card_handles(t@),
            patch_live_spec(t@, live@) == out@ + patched_from(t@, i as int, pairs_view(hs@), live@),
        decreases t.len() - i,
    {
        let nl = char_end_vec(&t, i, '\n');
        let e = if nl < t.len() {
            nl + 1
        } else {
            t.len()
        };
        let line = slice_vec(&t, i, e);
        let pl = patched_line_vec(&line, &hs, live);
        let ghost before = out@;
        push_all(&mut out, &pl);
        assert(before + patched_from(t@, i as int, pairs_view(hs@), live@) =~= out@
            + patched_from(t@, e as int, pairs_view(hs@), live@));
        i = e;
    }
    assert(out@ + patched_from(t@, i as int, pairs_view(hs@), live@) =~= out@);
    string_of(&out)
}

// ---------------------------------------------------------------------------
// The reference card
// ---------------------------------------------------------------------------

/// Each live channel handle, and the video id it occupies in the reference
/// card.
pub open spec fn reference_placeholders() -> Seq<(Seq<char>, Seq<char>)> {
    seq![
        ("LofiGirl"@, "VAlMDl00mYY"@),
        ("SkyNews"@, "YDvsBbKfLPA"@),
        ("aljazeeraenglish"@, "gCNeDWCI0vo"@),
        ("NASA"@, "awQzjn72bI0"@),
    ]
}

/// `html` with the placeholder ids of `ph[k..]` replaced, in order, by the
/// resolved live id of their handle when that id is 11 bytes long and
/// differs from the placeholder.
pub open spec fn swap_live_ids(
    html: Seq<char>,
    live: Map<Seq<char>, Seq<char>>,
    ph: Seq<(Seq<char>, Seq<char>)>,
    k: int,
) -> Seq<char>
    decreases ph.len() - k,
{
    if k < 0 || k >= ph.len() {
        html
    } else {
        let h = ph[k].0;
        let p = ph[k].1;
        let next = if live.contains_key(h) && utf8_len(live[h]) == 11 && live[h] != p {
            replace_all(html, p, live[h])
        } else {
            html
        };
        swap_live_ids(next, live, ph, k + 1)
    }
}

/// The reference youtube card: the freshest live ids swapped in, then the
/// build's Google sign-in client id and secret filled in.
pub open spec fn reference_card_spec(
    template: Seq<char>,
    live: Map<Seq<char>, Seq<char>>,
    client_id: Seq<char>,
    client_secret: Seq<char>,
) -> Seq<char> {
    let html = swap_live_ids(template, live, reference_placeholders(), 0);
    replace_all(
        replace_all(html, "__GOOGLE_CLIENT_ID__"@, client_id),
        "__GOOGLE_CLIENT_SECRET__"@,
        client_secret,
    )
}

pub open spec fn str_pairs_view(v: Seq<(&'static str, &'static str)>) -> Seq<(Seq<char>, Seq<char>)> {
    v.map_values(|p: (&'static str, &'static str)| (p.0@, p.1@))
}

/// The reference youtube card (`template`) opened on currently-live streams:
/// each placeholder id whose channel has a resolved 11-byte live id in `live`
/// is replaced by it, and the sign-in credentials (empty when the build has
/// none) are filled in.
pub fn youtube_reference_card(template: &str, live: &LiveIds, client_id: &str, client_secret: &str) -> (r: String)
    ensures
        r@ == reference_card_spec(template@, live@, client_id@, client_secret@),
{
    let ph = vec![
        ("LofiGirl", "VAlMDl00mYY"),
        ("SkyNews", "YDvsBbKfLPA"),
        ("aljazeeraenglish", "gCNeDWCI0vo"),
        ("NASA", "awQzjn72bI0"),
    ];
    proof {
        reveal_strlit("VAlMDl00mYY");
        reveal_strlit("YDvsBbKfLPA");
        reveal_strlit("gCNeDWCI0vo");
        reveal_strlit("awQzjn72bI0");
        reveal_strlit("__GOOGLE_CLIENT_ID__");
        reveal_strlit("__GOOGLE_CLIENT_SECRET__");
    }
    assert(str_pairs_view(ph@) =~= reference_placeholders());
    let mut html = chars_of(template);
    let mut k: usize = 0;
    while k < ph.len()
        invariant
            k <= ph@.len(),
            str_pairs_view(ph@) == reference_placeholders(),
            forall|j: int| 0 <= j < ph@.len() ==> (#[trigger] ph@[j]).1@.len() > 0,
            swap_live_ids(template@, live@, reference_placeholders(), 0) == swap_live_ids(
                html@,
                live@,
                reference_placeholders(),
                k as int,
            ),
        decreases ph.len() - k,
    {
        let (handle, placeholder) = ph[k];
        let hv = chars_of(handle);
        match live.get_chars(&hv) {
            Some(fresh) => {
                let fv = chars_of(fresh.as_str());
                let pv = chars_of(placeholder);
                if utf8_len_is(&fv, 11) && !vec_eq(&fv, &pv) {
                    html = replace_str(&html, placeholder, fresh.as_str());
                }
            },
            None => {},
        }
        k += 1;
    }
    let html = replace_str(&html, "__GOOGLE_CLIENT_ID__", client_id);
    let html = replace_str(&html, "__GOOGLE_CLIENT_SECRET__", client_secret);
    string_of(&html)
}

// ---------------------------------------------------------------------------
// A channel's live page
// ---------------------------------------------------------------------------

/// A character a youtube video id may hold.
pub open spec fn is_video_id_char(c: char) -> bool {
    crate::text::is_ascii_alnum(c) || c == '-' || c == '_'
}

/// The live video id on a channel's `/live` page: the 11 characters after the
/// first `"videoId":"`, when all of them are id characters.
pub open spec fn live_video_id_spec(body: Seq<char>) -> Option<Seq<char>> {
    match find(body, "\"videoId\":\""@) {
        None => None,
        Some(pos) => {
            let start = pos + 11;
            if start + 11 <= body.len() && (forall|k: int|
                start <= k < start + 11 ==> is_video_id_char(#[trigger] body[k])) {
                Some(body.subrange(start, start + 11))
            } else {
                None
            }
        },
    }
}

/// Reads the current live video id off the HTML of a channel's `/live` page.
pub fn live_video_id(body: &str) -> (r: Option<String>)
    ensures
        match r {
            Some(id) => live_video_id_spec(body@) == Some(id@),
            None => live_video_id_spec(body@) is None,
        },
{
    let t = chars_of(body);
    proof {
        reveal_strlit("\"videoId\":\"");
    }
    let rp = find_str(&t, "\"videoId\":\"", 0);
    let pos = match rp {
        None => return None,
        Some(p) => p,
    };
    proof {
        lemma_find_from(t@, "\"videoId\":\""@, 0);
        assert(pos + "\"videoId\":\""@.len() <= t.len());
    }
    let start = pos + 11;
    if t.len() - start < 11 {
        return None;
    }
    let mut k = start;
    while k < start + 11
        invariant
            t@ == body@,
            find(t@, "\"videoId\":\""@) == Some(pos as int),
            start == pos + 11,
            start <= k <= start + 11 <= t.len(),
            forall|m: int| start <= m < k ==> is_video_id_char(#[trigger] t@[m]),
        decreases start + 11 - k,
    {
        let c = t[k];
        if !(('a' <= c && c <= 'z') || ('A' <= c && c <= 'Z') || ('0' <= c && c <= '9') || c == '-'
            || c == '_') {
            assert(!is_video_id_char(t@[k as int]));
            return None;
        }
        k += 1;
    }
    let id = slice_vec(&t, start, start + 11);
    Some(string_of(&id))
}

} // verus!
