//! The render-time rewrites a card body goes through before the Splash VM:
//! notify tagging, bare `View{` neutralisation, full-bleed image fitting and
//! root-height pinning, and the pipeline that strings them together.
use vstd::prelude::*;
use crate::compose::{expand_spec, expand_vec, CardRegistry};
use crate::lines::{strip_name_line_spec, strip_name_line_vec};
use crate::text::{
    chars_of, contains, decimal, decimal_vec, find, find_from, find_from_exec, find_str,
    lemma_decimal_is_digits, lemma_replace_extends, lemma_replace_extends_undone,
    lemma_replace_keeps_followers,
    is_ascii_alnum, is_ascii_alpha, is_ascii_digit, lemma_find_from, lemma_find_from_unique,
    matches_at, push_all, push_range, push_str, replace_all, replace_str, replace_vec, slice_vec,
    string_of,
};
use crate::tokens::{subst_spec, subst_vec, CardState};

verus! {

// ---------------------------------------------------------------------------
// Notify tagging
// ---------------------------------------------------------------------------

/// Every `agent.notify("<ev>"` / `agent.notify('<ev>'` tagged with the owning
/// card's id: `agent.notify("<id>:<ev>"`.
pub open spec fn tag_notify_spec(body: Seq<char>, id: nat) -> Seq<char> {
    if !contains(body, "agent.notify("@) {
        body
    } else {
        let t = replace_all(body, "agent.notify(\""@, "agent.notify(\""@ + decimal(id) + seq![':']);
        replace_all(t, "agent.notify('"@, "agent.notify('"@ + decimal(id) + seq![':'])
    }
}

pub fn tag_notify_vec(body: &Vec<char>, item_id: usize) -> (res: Vec<char>)
    ensures
        res@ == tag_notify_spec(body@, item_id as nat),
{
    if find_str(body, "agent.notify(", 0).is_none() {
        assert(body@.subrange(0, body.len() as int) =~= body@);
        return slice_vec(body, 0, body.len());
    }
    let d = decimal_vec(item_id as u64);
    let mut dq = chars_of("agent.notify(\"");
    push_all(&mut dq, &d);
    dq.push(':');
    let mut sq = chars_of("agent.notify('");
    push_all(&mut sq, &d);
    sq.push(':');
    proof {
        reveal_strlit("agent.notify(\"");
        reveal_strlit("agent.notify('");
    }
    assert(dq@ =~= "agent.notify(\""@ + decimal(item_id as nat) + seq![':']);
    assert(sq@ =~= "agent.notify('"@ + decimal(item_id as nat) + seq![':']);
    let a = chars_of("agent.notify(\"");
    let t = replace_vec(body, &a, &dq);
    let b = chars_of("agent.notify('");
    replace_vec(&t, &b, &sq)
}

/// Law: every notify call of a tagged body carries the card's id: each
/// `agent.notify("` and each `agent.notify('` is followed by `<id>:`, so
/// every press can be routed back to the card that fired it. And the tag is
/// all that changes: taking `<id>:` back out after every notify call gives
/// back the body.
pub proof fn lemma_notify_calls_are_tagged(body: Seq<char>, id: nat)
    ensures
        replace_all(
            replace_all(
                tag_notify_spec(body, id),
                "agent.notify('"@ + decimal(id) + seq![':'],
                "agent.notify('"@,
            ),
            "agent.notify(\""@ + decimal(id) + seq![':'],
            "agent.notify(\""@,
        ) == body,
        forall|x: int|
            #[trigger] matches_at(tag_notify_spec(body, id), x, "agent.notify('"@) ==> matches_at(
                tag_notify_spec(body, id),
                x + 14,
                decimal(id) + seq![':'],
            ),
        forall|x: int|
            #[trigger] matches_at(tag_notify_spec(body, id), x, "agent.notify(\""@) ==> matches_at(
                tag_notify_spec(body, id),
                x + 14,
                decimal(id) + seq![':'],
            ),
{
    let from = "agent.notify('"@;
    let dq = "agent.notify(\""@;
    reveal_strlit("agent.notify('");
    reveal_strlit("agent.notify(\"");
    reveal_strlit("agent.notify(");
    assert(from =~= seq!['a', 'g', 'e', 'n', 't', '.', 'n', 'o', 't', 'i', 'f', 'y', '(', '\'']);
    assert(dq =~= seq!['a', 'g', 'e', 'n', 't', '.', 'n', 'o', 't', 'i', 'f', 'y', '(', '"']);
    if !contains(body, "agent.notify("@) {
        lemma_find_from(body, "agent.notify("@, 0);
        assert forall|x: int| #[trigger] matches_at(body, x, from) implies false by {
            assert(body.subrange(x, x + 13) =~= body.subrange(x, x + 14).take(13));
            assert(from.take(13) =~= "agent.notify("@);
            assert(matches_at(body, x, "agent.notify("@));
        }
        assert forall|x: int| #[trigger] matches_at(body, x, dq) implies false by {
            assert(body.subrange(x, x + 13) =~= body.subrange(x, x + 14).take(13));
            assert(dq.take(13) =~= "agent.notify("@);
            assert(matches_at(body, x, "agent.notify("@));
        }
        assert(tag_notify_spec(body, id) == body);
        let q = decimal(id) + seq![':'];
        lemma_find_from(body, from + q, 0);
        lemma_find_from(body, dq + q, 0);
        if let Some(k) = find_from(body, from + q, 0) {
            assert(body.subrange(k, k + 13) =~= body.subrange(k, k + (from + q).len()).take(13));
            assert((from + q).take(13) =~= "agent.notify("@);
            assert(matches_at(body, k, "agent.notify("@));
        }
        if let Some(k) = find_from(body, dq + q, 0) {
            assert(body.subrange(k, k + 13) =~= body.subrange(k, k + (dq + q).len()).take(13));
            assert((dq + q).take(13) =~= "agent.notify("@);
            assert(matches_at(body, k, "agent.notify("@));
        }
        assert(from + q =~= from + decimal(id) + seq![':']);
        assert(dq + q =~= dq + decimal(id) + seq![':']);
        assert(body.subrange(0, body.len() as int) =~= body);
    } else {
        let q = decimal(id) + seq![':'];
        assert(dq + q =~= dq + decimal(id) + seq![':']);
        let t = replace_all(body, dq, dq + q);
        lemma_decimal_is_digits(id);
        assert forall|k: int| 0 <= k < q.len() implies #[trigger] q[k] != from[0] by {
            if k < q.len() - 1 {
                assert(q[k] == decimal(id)[k]);
            }
        }
        assert(from + q =~= from + decimal(id) + seq![':']);
        lemma_replace_extends(body, dq, q);
        lemma_replace_keeps_followers(t, from, q, dq, q, 13);
        lemma_replace_extends(t, from, q);
        lemma_replace_extends_undone(t, from, q);
        lemma_replace_extends_undone(body, dq, q);
    }
}

/// Tags every notify call in a body with the owning card's id, so a button
/// press is routed back to the card that fired it.
pub fn tag_notify_calls(body: &str, item_id: usize) -> (res: String)
    ensures
        res@ == tag_notify_spec(body@, item_id as nat),
{
    let t = chars_of(body);
    let r = tag_notify_vec(&t, item_id);
    string_of(&r)
}

// ---------------------------------------------------------------------------
// Bare `View{`
// ---------------------------------------------------------------------------

pub open spec fn view_mark() -> Seq<char> {
    seq!['V', 'i', 'e', 'w', '{']
}

/// The invisible container a bare `View{` becomes.
pub open spec fn view_replacement() -> Seq<char> {
    "SolidView{show_bg: false "@
}

/// `t[i..]` with each `View{` not preceded by an ASCII letter replaced.
pub open spec fn bare_view_from(t: Seq<char>, i: int) -> Seq<char>
    decreases t.len() + 1 - i,
{
    if i < 0 || i > t.len() {
        seq![]
    } else {
        match find_from(t, view_mark(), i) {
            None => t.subrange(i, t.len() as int),
            Some(p) => {
                proof {
                    lemma_find_from(t, view_mark(), i);
                }
                if p > 0 && is_ascii_alpha(t[p - 1]) {
                    t.subrange(i, p + 5) + bare_view_from(t, p + 5)
                } else {
                    t.subrange(i, p) + view_replacement() + bare_view_from(t, p + 5)
                }
            },
        }
    }
}

/// Every bare `View{` (one not ending a longer widget name such as
/// `RoundedView{`) rewritten into a `SolidView{` with its background off.
pub open spec fn neutralize_view_spec(t: Seq<char>) -> Seq<char> {
    if !contains(t, view_mark()) {
        t
    } else {
        bare_view_from(t, 0)
    }
}

fn view_mark_vec() -> (r: Vec<char>)
    ensures
        r@ == view_mark(),
{
    let mut r: Vec<char> = Vec::new();
    r.push('V');
    r.push('i');
    r.push('e');
    r.push('w');
    r.push('{');
    assert(r@ =~= view_mark());
    r
}

pub fn neutralize_view_vec(body: &Vec<char>) -> (res: Vec<char>)
    ensures
        res@ == neutralize_view_spec(body@),
{
    let mark = view_mark_vec();
    if find_from_exec(body, &mark, 0).is_none() {
        assert(body@.subrange(0, body.len() as int) =~= body@);
        return slice_vec(body, 0, body.len());
    }
    let mut out: Vec<char> = Vec::new();
    let mut i: usize = 0;
    while i <= body.len()
        invariant
            mark@ == view_mark(),
            i <= body.len(),
            bare_view_from(body@, 0) == out@ + bare_view_from(body@, i as int),
        decreases body.len() + 1 - i,
    {
        let rp = find_from_exec(body, &mark, i);
        let p = match rp {
            None => {
                push_range(&mut out, body, i, body.len());
                return out;
            },
            Some(p) => p,
        };
        proof {
            lemma_find_from(body@, mark@, i as int);
        }
        if p > 0 && (('a' <= body[p - 1] && body[p - 1] <= 'z') || ('A' <= body[p - 1]
            && body[p - 1] <= 'Z')) {
            push_range(&mut out, body, i, p + 5);
        } else {
            push_range(&mut out, body, i, p);
            push_str(&mut out, "SolidView{show_bg: false ");
        }
        i = p + 5;
    }
    out
}

/// Rewrites each bare `View{` (which the Splash eval cannot render) into
/// `SolidView{show_bg: false `, an invisible layout container; a `View{`
/// right after an ASCII letter (`RoundedView{`, `SolidView{`, …) stays.
pub fn neutralize_bare_view(body: &str) -> (res: String)
    ensures
        res@ == neutralize_view_spec(body@),
{
    let t = chars_of(body);
    let r = neutralize_view_vec(&t);
    string_of(&r)
}

// ---------------------------------------------------------------------------
// Card root height
// ---------------------------------------------------------------------------

/// Height forced onto a full-screen card root and its background image.
pub const FULLBLEED_CARD_HEIGHT: u32 = 1200;

/// Height forced onto a full-bleed card root that was `height: Fill`.
pub const FULLBLEED_FALLBACK_HEIGHT: u32 = 1500;

/// The end of the run of ASCII digits starting at `s`.
pub open spec fn digits_end(t: Seq<char>, s: int) -> int
    decreases t.len() - s,
{
    if s < 0 || s >= t.len() || !is_ascii_digit(t[s]) {
        if 0 <= s <= t.len() {
            s
        } else {
            t.len() as int
        }
    } else {
        digits_end(t, s + 1)
    }
}

/// The value of a run of ASCII digits.
pub open spec fn digits_value(d: Seq<char>) -> nat
    decreases d.len(),
{
    if d.len() == 0 {
        0
    } else {
        digits_value(d.drop_last()) * 10 + ((d.last() as int - 48) as nat)
    }
}

/// The first `height: <n>` at or after `i` whose `n` parses as a `u32` of at
/// least 700.
pub open spec fn root_height_from(t: Seq<char>, i: int) -> Option<nat>
    decreases t.len() + 1 - i,
{
    if i < 0 || i > t.len() {
        None
    } else {
        match find_from(t, "height: "@, i) {
            None => None,
            Some(p) => {
                proof {
                    lemma_find_from(t, "height: "@, i);
                    reveal_strlit("height: ");
                }
                let s = p + "height: "@.len();
                let e = digits_end(t, s);
                let v = digits_value(t.subrange(s, e));
                if e > s && v <= u32::MAX && v >= 700 {
                    Some(v)
                } else {
                    root_height_from(t, s)
                }
            },
        }
    }
}

/// The first explicit `height: <n>` with `n >= 700` in a card body: its root's
/// fixed height.
pub open spec fn card_root_height_spec(t: Seq<char>) -> Option<nat> {
    root_height_from(t, 0)
}

pub proof fn lemma_digits_end(t: Seq<char>, s: int)
    requires
        0 <= s <= t.len(),
    ensures
        s <= digits_end(t, s) <= t.len(),
        forall|k: int| s <= k < digits_end(t, s) ==> is_ascii_digit(t[k]),
        digits_end(t, s) < t.len() ==> !is_ascii_digit(t[digits_end(t, s)]),
    decreases t.len() - s,
{
    if s < t.len() && is_ascii_digit(t[s]) {
        lemma_digits_end(t, s + 1);
    }
}

/// The value of the digit run `t[s..e]`, or `None` past `u32::MAX`.
fn parse_u32_digits(t: &Vec<char>, s: usize, e: usize) -> (r: Option<u32>)
    requires
        s <= e <= t.len(),
        forall|k: int| s <= k < e ==> is_ascii_digit(t@[k]),
    ensures
        match r {
            Some(v) => v as nat == digits_value(t@.subrange(s as int, e as int)),
            None => digits_value(t@.subrange(s as int, e as int)) > u32::MAX,
        },
{
    let mut v: u64 = 0;
    let mut k = s;
    while k < e
        invariant
            s <= k <= e <= t.len(),
            forall|m: int| s <= m < e ==> is_ascii_digit(t@[m]),
            v as nat == digits_value(t@.subrange(s as int, k as int)),
            v <= u32::MAX,
        decreases e - k,
    {
        let d = (t[k] as u32 - 48) as u64;
        let nv = v * 10 + d;
        proof {
            let d0 = t@.subrange(s as int, k as int);
            let d1 = t@.subrange(s as int, k + 1);
            assert(d1.drop_last() =~= d0);
            assert(d1.last() == t@[k as int]);
        }
        if nv > 4294967295 {
            proof {
                lemma_digits_monotone(t@.subrange(s as int, e as int), (k + 1 - s) as int);
                assert(t@.subrange(s as int, e as int).take((k + 1 - s) as int) =~= t@.subrange(s as int, k + 1));
            }
            return None;
        }
        v = nv;
        k += 1;
    }
    Some(v as u32)
}

/// A longer digit run is worth at least as much as its prefix.
pub proof fn lemma_digits_monotone(d: Seq<char>, n: int)
    requires
        0 <= n <= d.len(),
        forall|k: int| 0 <= k < d.len() ==> is_ascii_digit(d[k]),
    ensures
        digits_value(d) >= digits_value(d.take(n)),
    decreases d.len(),
{
    if n < d.len() {
        lemma_digits_monotone(d.drop_last(), n);
        assert(d.drop_last().take(n) =~= d.take(n));
    } else {
        assert(d.take(n) =~= d);
    }
}

pub fn card_root_height_vec(t: &Vec<char>) -> (r: Option<u32>)
    ensures
        match r {
            Some(v) => card_root_height_spec(t@) == Some(v as nat),
            None => card_root_height_spec(t@) is None,
        },
{
    let pat = chars_of("height: ");
    proof {
        reveal_strlit("height: ");
    }
    let mut i: usize = 0;
    while i <= t.len()
        invariant
            pat@ == "height: "@,
            pat@.len() == 8,
            i <= t.len(),
            card_root_height_spec(t@) == root_height_from(t@, i as int),
        decreases t.len() + 1 - i,
    {
        let rp = find_from_exec(t, &pat, i);
        let p = match rp {
            None => return None,
            Some(p) => p,
        };
        proof {
            lemma_find_from(t@, pat@, i as int);
        }
        let s = p + 8;
        let mut e = s;
        while e < t.len() && '0' <= t[e] && t[e] <= '9'
            invariant
                s <= e <= t.len(),
                forall|k: int| s <= k < e ==> is_ascii_digit(t@[k]),
            decreases t.len() - e,
        {
            e += 1;
        }
        proof {
            lemma_digits_end(t@, s as int);
            assert(digits_end(t@, s as int) == e) by {
                lemma_digits_end_is(t@, s as int, e as int);
            }
        }
        if e > s {
            match parse_u32_digits(t, s, e) {
                Some(v) => {
                    if v >= 700 {
                        return Some(v);
                    }
                },
                None => {},
            }
        }
        i = s;
    }
    None
}

pub proof fn lemma_digits_end_is(t: Seq<char>, s: int, e: int)
    requires
        0 <= s <= e <= t.len(),
        forall|k: int| s <= k < e ==> is_ascii_digit(t[k]),
        e < t.len() ==> !is_ascii_digit(t[e]),
    ensures
        digits_end(t, s) == e,
    decreases e - s,
{
    if s < e {
        lemma_digits_end_is(t, s + 1, e);
    }
}

/// The first explicit `height: <n>` with `n >= 700`: the card root's fixed
/// height.
pub fn card_root_height(body: &str) -> (r: Option<u32>)
    ensures
        match r {
            Some(v) => card_root_height_spec(body@) == Some(v as nat),
            None => card_root_height_spec(body@) is None,
        },
{
    let t = chars_of(body);
    card_root_height_vec(&t)
}

// ---------------------------------------------------------------------------
// Pinning a `height: Fill` root
// ---------------------------------------------------------------------------

/// `t` with its first `from` replaced by `to`.
pub open spec fn replace_first(t: Seq<char>, from: Seq<char>, to: Seq<char>) -> Seq<char> {
    match find(t, from) {
        Some(j) => t.take(j) + to + t.skip(j + from.len()),
        None => t,
    }
}

/// The end of a root's own attributes: the first `{` after its opening one.
pub open spec fn root_attrs_end(b: Seq<char>, o: int) -> int {
    match find_from(b, seq!['{'], o + 1) {
        Some(x) => x,
        None => b.len() as int,
    }
}

/// A card whose root is `height: Fill` (and which has no fixed height of at
/// least 700 anywhere) gets its root pinned to `height: 1500`. Only the root's
/// own attributes (before its first nested `{`) are touched.
pub open spec fn pin_root_spec(b: Seq<char>) -> Seq<char> {
    if card_root_height_spec(b) is Some {
        b
    } else {
        match find(b, seq!['{']) {
            None => b,
            Some(o) => {
                let ae = root_attrs_end(b, o);
                let attrs = b.subrange(o + 1, ae);
                let fixed = "height: "@ + decimal(FULLBLEED_FALLBACK_HEIGHT as nat);
                if contains(attrs, "height: Fill"@) {
                    b.subrange(0, o + 1) + replace_first(attrs, "height: Fill"@, fixed) + b.subrange(ae, b.len() as int)
                } else if contains(attrs, "height:Fill"@) {
                    b.subrange(0, o + 1) + replace_first(attrs, "height:Fill"@, fixed) + b.subrange(ae, b.len() as int)
                } else {
                    b
                }
            },
        }
    }
}

fn replace_first_vec(t: &Vec<char>, from: &str, to: &Vec<char>) -> (res: Vec<char>)
    ensures
        res@ == replace_first(t@, from@, to@),
{
    let f = chars_of(from);
    match find_from_exec(t, &f, 0) {
        None => {
            assert(t@.subrange(0, t.len() as int) =~= t@);
            slice_vec(t, 0, t.len())
        },
        Some(j) => {
            proof {
                lemma_find_from(t@, f@, 0);
                assert(j + f@.len() <= t@.len());
                assert(j + f.len() <= t.len());
            }
            let mut r = slice_vec(t, 0, j);
            push_all(&mut r, to);
            push_range(&mut r, t, j + f.len(), t.len());
            assert(r@ =~= t@.take(j as int) + to@ + t@.skip(j + f@.len()));
            r
        },
    }
}

pub fn pin_root_vec(b: &Vec<char>) -> (res: Vec<char>)
    ensures
        res@ == pin_root_spec(b@),
{
    if card_root_height_vec(b).is_some() {
        assert(b@.subrange(0, b.len() as int) =~= b@);
        return slice_vec(b, 0, b.len());
    }
    let mut lb: Vec<char> = Vec::new();
    lb.push('{');
    assert(lb@ =~= seq!['{']);
    let ro = find_from_exec(b, &lb, 0);
    let o = match ro {
        None => {
            assert(b@.subrange(0, b.len() as int) =~= b@);
            return slice_vec(b, 0, b.len());
        },
        Some(o) => o,
    };
    proof {
        lemma_find_from(b@, lb@, 0);
        assert(o + 1 <= b.len());
        lemma_find_from(b@, lb@, o + 1);
    }
    let ae = match find_from_exec(b, &lb, o + 1) {
        Some(x) => x,
        None => b.len(),
    };
    let attrs = slice_vec(b, o + 1, ae);
    let mut fixed = chars_of("height: ");
    let d = decimal_vec(FULLBLEED_FALLBACK_HEIGHT as u64);
    push_all(&mut fixed, &d);
    let new_attrs = if find_str(&attrs, "height: Fill", 0).is_some() {
        replace_first_vec(&attrs, "height: Fill", &fixed)
    } else if find_str(&attrs, "height:Fill", 0).is_some() {
        replace_first_vec(&attrs, "height:Fill", &fixed)
    } else {
        assert(b@.subrange(0, b.len() as int) =~= b@);
        return slice_vec(b, 0, b.len());
    };
    let mut r = slice_vec(b, 0, o + 1);
    push_all(&mut r, &new_attrs);
    push_range(&mut r, b, ae, b.len());
    r
}

/// Pins a `height: Fill` card root to a fixed height so the card does not
/// collapse to a blank slot; cards that already declare a fixed height of at
/// least 700 are left alone.
pub fn pin_fullbleed_root_height(body: &str) -> (res: String)
    ensures
        res@ == pin_root_spec(body@),
{
    let t = chars_of(body);
    let r = pin_root_vec(&t);
    string_of(&r)
}

// ---------------------------------------------------------------------------
// Full-bleed image fit
// ---------------------------------------------------------------------------

/// `inner` forced to cover its box: every other `ImageFit.*` becomes
/// `ImageFit.CropToFill` (added when no fit is named), and `height: Fill`
/// becomes the fixed height `full_h`.
pub open spec fn rewrite_fit_spec(inner: Seq<char>, full_h: nat) -> Seq<char> {
    let crop = "ImageFit.CropToFill"@;
    let s = replace_all(inner, "ImageFit.Biggest"@, crop);
    let s = replace_all(s, "ImageFit.Smallest"@, crop);
    let s = replace_all(s, "ImageFit.Vertical"@, crop);
    let s = replace_all(s, "ImageFit.Horizontal"@, crop);
    let s = replace_all(s, "ImageFit.Stretch"@, crop);
    let s = replace_all(s, "ImageFit.Size"@, crop);
    let s = if !contains(s, "ImageFit."@) {
        " fit: ImageFit.CropToFill"@ + s
    } else {
        s
    };
    let h = "height: "@ + decimal(full_h);
    replace_all(replace_all(s, "height: Fill"@, h), "height:Fill"@, h)
}

pub fn rewrite_fit_vec(inner: &Vec<char>, full_h: u32) -> (res: Vec<char>)
    ensures
        res@ == rewrite_fit_spec(inner@, full_h as nat),
{
    proof {
        reveal_strlit("ImageFit.Biggest");
        reveal_strlit("ImageFit.Smallest");
        reveal_strlit("ImageFit.Vertical");
        reveal_strlit("ImageFit.Horizontal");
        reveal_strlit("ImageFit.Stretch");
        reveal_strlit("ImageFit.Size");
        reveal_strlit("height: Fill");
        reveal_strlit("height:Fill");
    }
    let s = replace_str(inner, "ImageFit.Biggest", "ImageFit.CropToFill");
    let s = replace_str(&s, "ImageFit.Smallest", "ImageFit.CropToFill");
    let s = replace_str(&s, "ImageFit.Vertical", "ImageFit.CropToFill");
    let s = replace_str(&s, "ImageFit.Horizontal", "ImageFit.CropToFill");
    let s = replace_str(&s, "ImageFit.Stretch", "ImageFit.CropToFill");
    let s = replace_str(&s, "ImageFit.Size", "ImageFit.CropToFill");
    let s = if find_str(&s, "ImageFit.", 0).is_none() {
        let mut r = chars_of(" fit: ImageFit.CropToFill");
        push_all(&mut r, &s);
        r
    } else {
        s
    };
    let mut h = chars_of("height: ");
    let d = decimal_vec(full_h as u64);
    push_all(&mut h, &d);
    let a = chars_of("height: Fill");
    let s = replace_vec(&s, &a, &h);
    let b = chars_of("height:Fill");
    replace_vec(&s, &b, &h)
}

/// Forces a full-bleed `Image`'s inner attributes to `CropToFill` and a fixed
/// height.
pub fn rewrite_image_fit_crop(inner: &str, full_h: u32) -> (res: String)
    ensures
        res@ == rewrite_fit_spec(inner@, full_h as nat),
{
    let t = chars_of(inner);
    let r = rewrite_fit_vec(&t, full_h);
    string_of(&r)
}

/// The position of the `}` that brings the brace depth back to zero, scanning
/// from `j` at depth `d` (string literals not considered), or `t.len()`.
pub open spec fn depth_close(t: Seq<char>, j: int, d: int) -> int
    decreases t.len() - j,
{
    if j < 0 || j >= t.len() {
        t.len() as int
    } else if t[j] == '{' {
        depth_close(t, j + 1, d + 1)
    } else if t[j] == '}' {
        if d - 1 == 0 {
            j
        } else {
            depth_close(t, j + 1, d - 1)
        }
    } else {
        depth_close(t, j + 1, d)
    }
}

pub proof fn lemma_depth_close(t: Seq<char>, j: int, d: int)
    requires
        0 <= j,
    ensures
        j <= depth_close(t, j, d) <= t.len() || (j > t.len() && depth_close(t, j, d) == t.len()),
    decreases t.len() - j,
{
    if j >= t.len() {
    } else if t[j] == '{' {
        lemma_depth_close(t, j + 1, d + 1);
    } else if t[j] == '}' {
        if d - 1 != 0 {
            lemma_depth_close(t, j + 1, d - 1);
        }
    } else {
        lemma_depth_close(t, j + 1, d);
    }
}

fn depth_close_exec(t: &Vec<char>, brace: usize) -> (r: usize)
    requires
        brace <= t.len(),
    ensures
        r as int == depth_close(t@, brace as int, 0),
{
    let mut depth: i128 = 0;
    let mut j = brace;
    while j < t.len()
        invariant
            brace <= j <= t.len(),
            -(j as int) <= depth <= j,
            depth_close(t@, brace as int, 0) == depth_close(t@, j as int, depth as int),
        decreases t.len() - j,
    {
        if t[j] == '{' {
            depth += 1;
        } else if t[j] == '}' {
            if depth - 1 == 0 {
                return j;
            }
            depth -= 1;
        }
        j += 1;
    }
    j
}

/// `t[i..]` with every full-bleed `Image{ … }` (one whose attributes say
/// `height: Fill`) rewritten by `rewrite_fit_spec(_, h)`.
pub open spec fn image_scan(t: Seq<char>, i: int, h: nat) -> Seq<char>
    decreases t.len() + 1 - i,
{
    if i < 0 || i >= t.len() {
        seq![]
    } else {
        match find_from(t, "Image{"@, i) {
            None => t.subrange(i, t.len() as int),
            Some(start) => {
                proof {
                    lemma_find_from(t, "Image{"@, i);
                    reveal_strlit("Image{");
                    lemma_depth_close(t, start + 5, 0);
                }
                let brace = start + 5;
                let part_of_name = start > 0 && is_ascii_alnum(t[start - 1]);
                let j = depth_close(t, brace, 0);
                if part_of_name || j >= t.len() {
                    t.subrange(i, brace + 1) + image_scan(t, brace + 1, h)
                } else {
                    let inner = t.subrange(brace + 1, j);
                    let full_bleed = contains(inner, "height: Fill"@) || contains(inner, "height:Fill"@);
                    t.subrange(i, brace + 1) + (if full_bleed {
                        rewrite_fit_spec(inner, h)
                    } else {
                        inner
                    }) + seq!['}'] + image_scan(t, j + 1, h)
                }
            },
        }
    }
}

/// Every full-bleed background `Image` forced to crop-to-fill at the card
/// root's height (a `height: 700` root first raised to 1200).
pub open spec fn force_fit_spec(body: Seq<char>) -> Seq<char> {
    if !contains(body, "Image{"@) {
        body
    } else {
        let b = replace_all(body, "height: 700"@, "height: "@ + decimal(FULLBLEED_CARD_HEIGHT as nat));
        let h = match card_root_height_spec(b) {
            Some(v) => v,
            None => FULLBLEED_CARD_HEIGHT as nat,
        };
        image_scan(b, 0, h)
    }
}

pub fn force_fit_vec(body: &Vec<char>) -> (res: Vec<char>)
    ensures
        res@ == force_fit_spec(body@),
{
    let mark = chars_of("Image{");
    proof {
        reveal_strlit("Image{");
        reveal_strlit("height: 700");
    }
    if find_from_exec(body, &mark, 0).is_none() {
        assert(body@.subrange(0, body.len() as int) =~= body@);
        return slice_vec(body, 0, body.len());
    }
    let mut hh = chars_of("height: ");
    let d = decimal_vec(FULLBLEED_CARD_HEIGHT as u64);
    push_all(&mut hh, &d);
    let h7 = chars_of("height: 700");
    let b = replace_vec(body, &h7, &hh);
    let full_h: u32 = match card_root_height_vec(&b) {
        Some(v) => v,
        None => FULLBLEED_CARD_HEIGHT,
    };
    proof {
        assert(hh@ =~= "height: "@ + decimal(FULLBLEED_CARD_HEIGHT as nat));
        assert(contains(body@, "Image{"@));
        assert(force_fit_spec(body@) == image_scan(b@, 0, full_h as nat));
    }
    let mut out: Vec<char> = Vec::new();
    let mut i: usize = 0;
    while i < b.len()
        invariant
            force_fit_spec(body@) == image_scan(b@, 0, full_h as nat),
            mark@ == "Image{"@,
            mark@.len() == 6,
            i <= b.len() + 1,
            image_scan(b@, 0, full_h as nat) == out@ + image_scan(b@, i as int, full_h as nat),
        decreases b.len() + 1 - i,
    {
        let rs = find_from_exec(&b, &mark, i);
        let start = match rs {
            None => {
                assert(find_from(b@, "Image{"@, i as int) is None);
                assert(image_scan(b@, i as int, full_h as nat) == b@.subrange(i as int, b.len() as int));
                push_range(&mut out, &b, i, b.len());
                return out;
            },
            Some(s) => s,
        };
        proof {
            lemma_find_from(b@, mark@, i as int);
        }
        let brace = start + 5;
        let part_of_name = start > 0 && (('a' <= b[start - 1] && b[start - 1] <= 'z') || ('A'
            <= b[start - 1] && b[start - 1] <= 'Z') || ('0' <= b[start - 1] && b[start - 1]
            <= '9'));
        let j = depth_close_exec(&b, brace);
        proof {
            reveal_strlit("Image{");
            assert(b@.subrange(start as int, start + 6) == "Image{"@);
            assert(b@.subrange(start as int, start + 6)[5] == b@[brace as int]);
            assert(b@[brace as int] == '{');
            lemma_depth_close(b@, brace + 1, 1);
        }
        if part_of_name || j >= b.len() {
            push_range(&mut out, &b, i, brace + 1);
            i = brace + 1;
            continue;
        }
        let inner = slice_vec(&b, brace + 1, j);
        let full_bleed = find_str(&inner, "height: Fill", 0).is_some() || find_str(
            &inner,
            "height:Fill",
            0,
        ).is_some();
        push_range(&mut out, &b, i, brace + 1);
        if full_bleed {
            let r = rewrite_fit_vec(&inner, full_h);
            push_all(&mut out, &r);
        } else {
            push_all(&mut out, &inner);
        }
        out.push('}');
        i = j + 1;
    }
    proof {
        assert(image_scan(b@, i as int, full_h as nat) == Seq::<char>::empty());
        assert(out@ + Seq::<char>::empty() =~= out@);
    }
    out
}

/// Forces every full-bleed background `Image` (one sized `height: Fill`) to
/// `fit: ImageFit.CropToFill` at the card root's height.
pub fn force_fullbleed_image_fit(body: &str) -> (res: String)
    ensures
        res@ == force_fit_spec(body@),
{
    let t = chars_of(body);
    let r = force_fit_vec(&t);
    string_of(&r)
}

// ---------------------------------------------------------------------------
// The per-card pipeline
// ---------------------------------------------------------------------------

/// A raw card body made ready to render: name directive dropped, embeds
/// expanded, state substituted, bare `View{` neutralised, a `Fill` root
/// pinned, full-bleed images fitted, notify calls tagged with the card's id.
pub open spec fn card_state_spec(
    body: Seq<char>,
    item_id: nat,
    state: Map<Seq<char>, Seq<char>>,
    reg: Map<Seq<char>, Seq<char>>,
) -> Seq<char> {
    let named = strip_name_line_spec(body);
    let composed = expand_spec(named, 0, 0, reg).0;
    let subst = subst_spec(composed, "{{state."@, state);
    let safe = neutralize_view_spec(subst);
    let rooted = pin_root_spec(safe);
    let fitted = force_fit_spec(rooted);
    tag_notify_spec(fitted, item_id)
}

pub fn card_state_vec(body: &Vec<char>, item_id: usize, state: &CardState, reg: &CardRegistry) -> (res: Vec<char>)
    ensures
        res@ == card_state_spec(body@, item_id as nat, state@, reg@),
{
    let named = strip_name_line_vec(body);
    let mut inst: u32 = 0;
    let composed = expand_vec(&named, 0, &mut inst, reg);
    let open = chars_of("{{state.");
    proof {
        reveal_strlit("{{state.");
    }
    let subst = subst_vec(&composed, &open, state);
    let safe = neutralize_view_vec(&subst);
    let rooted = pin_root_vec(&safe);
    let fitted = force_fit_vec(&rooted);
    tag_notify_vec(&fitted, item_id)
}

/// Prepares a raw Splash body for one card: drops the `// name:` directive,
/// expands `Card{}` embeds, substitutes the card's state, neutralises bare
/// `View{}`, pins a `Fill` root, fits full-bleed images and tags its notify
/// calls with the card id.
pub fn substitute_card_state(body: &str, item_id: usize, state: &CardState, reg: &CardRegistry) -> (res: String)
    ensures
        res@ == card_state_spec(body@, item_id as nat, state@, reg@),
{
    let t = chars_of(body);
    let r = card_state_vec(&t, item_id, state, reg);
    string_of(&r)
}

// ---------------------------------------------------------------------------
// A pinned root is found again
// ---------------------------------------------------------------------------

/// The text a pinned root height is written as: `height: 1500`.
pub open spec fn pinned_height_text() -> Seq<char> {
    "height: "@ + decimal(FULLBLEED_FALLBACK_HEIGHT as nat)
}

/// Where `pin_root_spec` rewrites: the position of the root's `height: Fill`
/// (else `height:Fill`) and the length of that text.
pub open spec fn pin_site(b: Seq<char>) -> Option<(int, int)> {
    match find(b, seq!['{']) {
        None => None,
        Some(o) => {
            let attrs = b.subrange(o + 1, root_attrs_end(b, o));
            match find(attrs, "height: Fill"@) {
                Some(j) => Some((o + 1 + j, 12)),
                None => match find(attrs, "height:Fill"@) {
                    Some(j) => Some((o + 1 + j, 11)),
                    None => None,
                },
            }
        },
    }
}

proof fn lemma_pinned_height_text()
    ensures
        pinned_height_text() == seq!['h', 'e', 'i', 'g', 'h', 't', ':', ' ', '1', '5', '0', '0'],
{
    reveal_strlit("height: ");
    reveal_with_fuel(decimal, 5);
    assert(decimal(1500) =~= seq!['1', '5', '0', '0']);
    assert(pinned_height_text() =~= seq!['h', 'e', 'i', 'g', 'h', 't', ':', ' ', '1', '5', '0', '0']);
}

/// A card the pin changes had no root height, and becomes its text up to the
/// site, the pinned height, and its text after the replaced `Fill`.
proof fn lemma_pin_shape(b: Seq<char>)
    requires
        pin_root_spec(b) != b,
    ensures
        card_root_height_spec(b) is None,
        pin_site(b) matches Some((p, l)) && 0 <= p && p + l <= b.len() && (l == 11 || l == 12)
            && b[p] == 'h' && b[p + 1] == 'e' && pin_root_spec(b) == b.take(p) + pinned_height_text()
            + b.skip(p + l),
{
    reveal_strlit("height: Fill");
    reveal_strlit("height:Fill");
    let o = find(b, seq!['{'])->Some_0;
    lemma_find_from(b, seq!['{'], 0);
    lemma_find_from(b, seq!['{'], o + 1);
    let ae = root_attrs_end(b, o);
    let attrs = b.subrange(o + 1, ae);
    let h = pinned_height_text();
    if contains(attrs, "height: Fill"@) {
        let pat = "height: Fill"@;
        let j = find(attrs, pat)->Some_0;
        lemma_find_from(attrs, pat, 0);
        assert(attrs.subrange(j, j + 12)[0] == b[o + 1 + j]);
        assert(attrs.subrange(j, j + 12)[1] == b[o + 2 + j]);
        assert(b.subrange(0, o + 1) + replace_first(attrs, pat, h) + b.subrange(ae, b.len() as int)
            =~= b.take(o + 1 + j) + h + b.skip(o + 1 + j + 12));
    } else {
        let pat = "height:Fill"@;
        let j = find(attrs, pat)->Some_0;
        lemma_find_from(attrs, pat, 0);
        assert(attrs.subrange(j, j + 11)[0] == b[o + 1 + j]);
        assert(attrs.subrange(j, j + 11)[1] == b[o + 2 + j]);
        assert(b.subrange(0, o + 1) + replace_first(attrs, pat, h) + b.subrange(ae, b.len() as int)
            =~= b.take(o + 1 + j) + h + b.skip(o + 1 + j + 11));
    }
}

/// Digit runs from `s` read the same in two texts that agree before `p`
/// when neither holds a digit at `p`.
proof fn lemma_digits_agree(t1: Seq<char>, t2: Seq<char>, s: int, p: int)
    requires
        0 <= s <= p,
        p < t1.len(),
        p < t2.len(),
        forall|k: int| 0 <= k < p ==> t1[k] == t2[k],
        !is_ascii_digit(t1[p]),
        !is_ascii_digit(t2[p]),
    ensures
        digits_end(t1, s) == digits_end(t2, s),
        s <= digits_end(t1, s) <= p,
    decreases p - s,
{
    if s < p && is_ascii_digit(t1[s]) {
        lemma_digits_agree(t1, t2, s + 1, p);
    }
}

/// No `height: ` starts in the seven places before a position holding `he`.
proof fn lemma_no_height_straddle(t: Seq<char>, q: int, p: int)
    requires
        p - 8 < q < p,
        p + 1 < t.len(),
        t[p] == 'h',
        t[p + 1] == 'e',
    ensures
        !matches_at(t, q, "height: "@),
{
    reveal_strlit("height: ");
    assert("height: "@ =~= seq!['h', 'e', 'i', 'g', 'h', 't', ':', ' ']);
    if matches_at(t, q, "height: "@) {
        assert(t.subrange(q, q + 8)[p - q] == t[p]);
        if p - q == 3 {
            assert(t.subrange(q, q + 8)[4] == t[p + 1]);
        }
    }
}

/// With no height found before `p` in `t1`, the scan of `t2` (which agrees
/// with `t1` before `p`, and holds `height: ` at `p`) gets to `p` unchanged.
proof fn lemma_root_scan_prefix(t1: Seq<char>, t2: Seq<char>, p: int, i: int)
    requires
        0 <= i <= p,
        p + 1 < t1.len(),
        forall|k: int| 0 <= k < p ==> t1[k] == t2[k],
        t1[p] == 'h' && t1[p + 1] == 'e',
        matches_at(t2, p, "height: "@),
        root_height_from(t1, i) is None,
    ensures
        root_height_from(t2, i) == root_height_from(t2, p),
    decreases p - i,
{
    reveal_strlit("height: ");
    let pat = "height: "@;
    assert(t2.subrange(p, p + 8)[0] == t2[p]);
    assert(t2.subrange(p, p + 8)[1] == t2[p + 1]);
    lemma_find_from(t2, pat, i);
    lemma_find_from(t2, pat, p);
    lemma_find_from_unique(t2, pat, p, p);
    let q = find_from(t2, pat, i)->Some_0;
    if q < p {
        if q > p - 8 {
            lemma_no_height_straddle(t2, q, p);
        }
        assert(t1.subrange(q, q + 8) =~= t2.subrange(q, q + 8));
        assert forall|k: int| i <= k < q implies !matches_at(t1, k, pat) by {
            if k > p - 8 {
                lemma_no_height_straddle(t1, k, p);
            } else {
                assert(!matches_at(t2, k, pat));
                assert(t1.subrange(k, k + 8) =~= t2.subrange(k, k + 8));
            }
        }
        lemma_find_from_unique(t1, pat, i, q);
        lemma_digits_agree(t1, t2, q + 8, p);
        assert(t1.subrange(q + 8, digits_end(t1, q + 8)) =~= t2.subrange(q + 8, digits_end(t2, q + 8)));
        lemma_root_scan_prefix(t1, t2, p, q + 8);
    } else {
        lemma_find_from_unique(t2, pat, i, p);
    }
}

/// The scan from a pinned `height: 1500` reads 1500 when no digit follows it.
proof fn lemma_reads_pinned(t: Seq<char>, p: int)
    requires
        0 <= p,
        p + 12 <= t.len(),
        t.subrange(p, p + 12) == pinned_height_text(),
        p + 12 < t.len() ==> !is_ascii_digit(t[p + 12]),
    ensures
        root_height_from(t, p) == Some(FULLBLEED_FALLBACK_HEIGHT as nat),
{
    reveal_strlit("height: ");
    lemma_pinned_height_text();
    assert(t.subrange(p, p + 8) =~= "height: "@);
    lemma_find_from_unique(t, "height: "@, p, p);
    assert(t[p + 8] == t.subrange(p, p + 12)[8]);
    assert(t[p + 9] == t.subrange(p, p + 12)[9]);
    assert(t[p + 10] == t.subrange(p, p + 12)[10]);
    assert(t[p + 11] == t.subrange(p, p + 12)[11]);
    assert(digits_end(t, p + 12) == p + 12);
    assert(digits_end(t, p + 11) == p + 12);
    assert(digits_end(t, p + 10) == p + 12);
    assert(digits_end(t, p + 9) == p + 12);
    assert(digits_end(t, p + 8) == p + 12);
    let d = t.subrange(p + 8, p + 12);
    assert(d =~= seq!['1', '5', '0', '0']);
    assert(digits_value(d.take(1)) == 1) by {
        assert(d.take(1).drop_last() =~= Seq::<char>::empty());
        assert(digits_value(Seq::<char>::empty()) == 0);
        assert(d.take(1).last() == '1');
        assert(('1' as int) == 49);
    }
    assert(digits_value(d.take(2)) == 15) by {
        assert(d.take(2).drop_last() =~= d.take(1));
        assert(d.take(2).last() == '5');
        assert(('5' as int) == 53);
    }
    assert(digits_value(d.take(3)) == 150) by {
        assert(d.take(3).drop_last() =~= d.take(2));
        assert(d.take(3).last() == '0');
        assert(('0' as int) == 48);
    }
    assert(digits_value(d) == 1500) by {
        assert(d.drop_last() =~= d.take(3));
        assert(d.last() == '0');
        assert(('0' as int) == 48);
    }
}

/// Pinning is found again: after a `height: Fill` root is pinned,
/// `card_root_height` reads the pinned height, so the image-fit pass pins the
/// background image to the same value. Holds when the root's `Fill` is not
/// directly followed by a digit (which would run on into the pinned number).
#[verifier::rlimit(50)]
#[verifier::spinoff_prover]
pub proof fn lemma_pinned_root_height(b: Seq<char>)
    requires
        pin_root_spec(b) != b,
        pin_site(b) matches Some((p, l)) && (p + l < b.len() ==> !is_ascii_digit(b[p + l])),
    ensures
        card_root_height_spec(pin_root_spec(b)) == Some(FULLBLEED_FALLBACK_HEIGHT as nat),
{
    reveal_strlit("height: ");
    lemma_pin_shape(b);
    lemma_pinned_height_text();
    let (p, l) = pin_site(b)->Some_0;
    let b2 = pin_root_spec(b);
    let h = pinned_height_text();
    assert(b2 =~= b.take(p) + h + b.skip(p + l));
    assert forall|k: int| 0 <= k < p implies b[k] == b2[k] by {}
    assert(b2.subrange(p, p + 8) =~= "height: "@);
    lemma_root_scan_prefix(b, b2, p, 0);
    assert(b2.subrange(p, p + 12) =~= h);
    if p + 12 < b2.len() {
        assert(b2[p + 12] == b[p + l]);
    }
    lemma_reads_pinned(b2, p);
}

/// Pinning twice is pinning once, for a root the law above covers.
pub proof fn lemma_pin_idempotent(b: Seq<char>)
    requires
        pin_root_spec(b) != b,
        pin_site(b) matches Some((p, l)) && (p + l < b.len() ==> !is_ascii_digit(b[p + l])),
    ensures
        pin_root_spec(pin_root_spec(b)) == pin_root_spec(b),
{
    lemma_pinned_root_height(b);
}

// ---------------------------------------------------------------------------
// No bare `View{` is left
// ---------------------------------------------------------------------------

proof fn lemma_view_replacement_shape()
    ensures
        view_replacement().len() > 10,
        view_replacement()[0] == 'S',
        view_replacement()[4] == 'd',
        forall|j: int| 0 <= j < view_replacement().len() && view_replacement()[j] == 'V' ==> j == 5,
        view_replacement().subrange(5, 10) == view_mark(),
{
    reveal_strlit("SolidView{show_bg: false ");
    assert(view_replacement().subrange(5, 10) =~= view_mark());
}

/// In what the rewrite leaves from `i` on, every `View{` follows an ASCII
/// letter; one at the very start does when `t[i - 1]` is one.
proof fn lemma_bare_view_from_letters(t: Seq<char>, i: int)
    requires
        0 <= i,
    ensures
        forall|k: int| #[trigger] matches_at(bare_view_from(t, i), k, view_mark()) ==> (if k > 0 {
            is_ascii_alpha(bare_view_from(t, i)[k - 1])
        } else {
            i > 0 && is_ascii_alpha(t[i - 1])
        }),
    decreases t.len() + 1 - i,
{
    let v = view_mark();
    let out = bare_view_from(t, i);
    if i > t.len() {
    } else {
        lemma_find_from(t, v, i);
        match find_from(t, v, i) {
            None => {
                assert forall|k: int| #[trigger] matches_at(out, k, v) implies false by {
                    assert(out.subrange(k, k + 5) =~= t.subrange(i + k, i + k + 5));
                    assert(matches_at(t, i + k, v));
                }
            },
            Some(p) => {
                lemma_bare_view_from_letters(t, p + 5);
                let rest = bare_view_from(t, p + 5);
                assert(t.subrange(p, p + 5) == v);
                assert(t[p + 4] == t.subrange(p, p + 5)[4]);
                if p > 0 && is_ascii_alpha(t[p - 1]) {
                    let x = t.subrange(i, p + 5);
                    let m = x.len() as int;
                    assert(out == x + rest);
                    assert forall|k: int| #[trigger] matches_at(out, k, v) implies (if k > 0 {
                        is_ascii_alpha(out[k - 1])
                    } else {
                        i > 0 && is_ascii_alpha(t[i - 1])
                    }) by {
                        assert(out.subrange(k, k + 5)[0] == out[k]);
                        if k + 5 <= m {
                            assert(out.subrange(k, k + 5) =~= t.subrange(i + k, i + k + 5));
                            assert(matches_at(t, i + k, v));
                            assert(i + k == p);
                        } else if k < m {
                            assert(out[k] == t[i + k]);
                            assert(t[i + k] == t.subrange(p, p + 5)[i + k - p]);
                        } else {
                            assert(out.subrange(k, k + 5) =~= rest.subrange(k - m, k - m + 5));
                            assert(matches_at(rest, k - m, v));
                            if k > m {
                                assert(out[k - 1] == rest[k - m - 1]);
                            }
                        }
                    }
                } else {
                    lemma_view_replacement_shape();
                    let r = view_replacement();
                    let a = p - i;
                    let x = t.subrange(i, p);
                    assert(out == x + r + rest);
                    assert forall|k: int| #[trigger] matches_at(out, k, v) implies (if k > 0 {
                        is_ascii_alpha(out[k - 1])
                    } else {
                        i > 0 && is_ascii_alpha(t[i - 1])
                    }) by {
                        assert(out.subrange(k, k + 5)[0] == out[k]);
                        if k + 5 <= a {
                            assert(out.subrange(k, k + 5) =~= t.subrange(i + k, i + k + 5));
                            assert(matches_at(t, i + k, v));
                        } else if k < a {
                            assert(out[a] == r[0]);
                            assert(out.subrange(k, k + 5)[a - k] == out[a]);
                        } else if k < a + r.len() {
                            assert(out[k] == r[k - a]);
                            assert(k - a == 5);
                            assert(out[k - 1] == r[4]);
                        } else {
                            let m = a + r.len();
                            assert(out.subrange(k, k + 5) =~= rest.subrange(k - m, k - m + 5));
                            assert(matches_at(rest, k - m, v));
                            if k > m {
                                assert(out[k - 1] == rest[k - m - 1]);
                            }
                        }
                    }
                }
            },
        }
    }
}

/// Nothing bare is left: after the rewrite every `View{` ends a longer
/// widget name (it follows an ASCII letter, as in `RoundedView{`).
pub proof fn lemma_no_bare_view_left(t: Seq<char>)
    ensures
        forall|k: int| #[trigger] matches_at(neutralize_view_spec(t), k, view_mark()) ==> k > 0
            && is_ascii_alpha(neutralize_view_spec(t)[k - 1]),
{
    if !contains(t, view_mark()) {
        lemma_find_from(t, view_mark(), 0);
        assert forall|k: int| #[trigger] matches_at(t, k, view_mark()) implies false by {}
    } else {
        lemma_bare_view_from_letters(t, 0);
    }
}

} // verus!
