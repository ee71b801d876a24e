//! Trip places for the `nav` app: the destination named in a free-text
//! request, and the origin / destination the router appends to its decision
//! line as `from=<origin>; to=<destination>`.
use vstd::prelude::*;
use crate::prompts::{lowercase_of, str_to_lowercase};
use crate::scan::{char_at_byte_from, opt_view};
use crate::text::{
    chars_of, find, find_from_exec, find_str, lemma_find_from, lemma_rfind_below,
    lemma_trim_idempotent, lemma_ws_prefix_len, lemma_ws_suffix_len, push_str, rfind, rfind_str,
    slice_vec, string_of, trim, trim_bounds, trim_start, trim_vec, utf8_len, utf8_width,
};

verus! {

// ---------------------------------------------------------------------------
// Suffixes
// ---------------------------------------------------------------------------

/// `s` ends with `p`.
pub open spec fn ends_with(s: Seq<char>, p: Seq<char>) -> bool {
    p.len() <= s.len() && s.subrange(s.len() - p.len(), s.len() as int) == p
}

fn ends_with_exec(s: &Vec<char>, p: &Vec<char>) -> (r: bool)
    ensures
        r == ends_with(s@, p@),
{
    if p.len() > s.len() {
        return false;
    }
    let off = s.len() - p.len();
    let mut k: usize = 0;
    while k < p.len()
        invariant
            off + p.len() == s.len(),
            k <= p.len(),
            forall|j: int| 0 <= j < k ==> s@[off + j] == p@[j],
        decreases p.len() - k,
    {
        if s[off + k] != p[k] {
            proof {
                assert(s@.subrange(off as int, s.len() as int)[k as int] != p@[k as int]);
            }
            return false;
        }
        k += 1;
    }
    assert(s@.subrange(off as int, s.len() as int) =~= p@);
    true
}

/// `trim` never lengthens, and keeps the length only of a text it leaves as is.
pub proof fn lemma_trim_shrinks(s: Seq<char>)
    ensures
        trim(s).len() <= s.len(),
        trim(s).len() == s.len() ==> trim(s) == s,
{
    lemma_ws_prefix_len(s);
    let t = trim_start(s);
    lemma_ws_suffix_len(t);
    if trim(s).len() == s.len() {
        assert(t =~= s);
        assert(trim(s) =~= s);
    }
}

// ---------------------------------------------------------------------------
// Byte offsets
// ---------------------------------------------------------------------------

/// The UTF-8 byte offset of character position `i` of `s`.
pub open spec fn byte_offset(s: Seq<char>, i: int) -> int {
    utf8_len(s.take(i)) as int
}

/// `&s[b..]`: `s` from UTF-8 byte `b` on; `None` when no character of `s`
/// starts at `b` (inside a character, or past the end), where that slice
/// panics.
pub open spec fn from_byte(s: Seq<char>, b: int) -> Option<Seq<char>> {
    match char_at_byte_from(s, b, 0, 0) {
        Some(k) => Some(s.skip(k)),
        None => None,
    }
}

/// `&s[..b]`: `s` up to UTF-8 byte `b`; `None` where that slice panics.
pub open spec fn before_byte(s: Seq<char>, b: int) -> Option<Seq<char>> {
    match char_at_byte_from(s, b, 0, 0) {
        Some(k) => Some(s.take(k)),
        None => None,
    }
}

pub proof fn lemma_char_at_byte_range(s: Seq<char>, b: int, k: int, at: int)
    requires
        0 <= k,
    ensures
        char_at_byte_from(s, b, k, at) matches Some(j) ==> k <= j <= s.len(),
    decreases s.len() - k,
{
    if k <= s.len() && at != b && !(at > b || k == s.len()) {
        lemma_char_at_byte_range(s, b, k + 1, at + utf8_width(s[k]));
    }
}

fn width_of(c: char) -> (w: u128)
    ensures
        w == utf8_width(c),
        w <= 4,
{
    let code = c as u32;
    if code < 0x80 {
        1
    } else if code < 0x800 {
        2
    } else if code < 0x10000 {
        3
    } else {
        4
    }
}

/// The UTF-8 byte offset of character position `i` of `t`.
fn byte_offset_vec(t: &Vec<char>, i: usize) -> (r: u128)
    requires
        i <= t.len(),
    ensures
        r == byte_offset(t@, i as int),
        r <= 4 * i,
{
    let mut acc: u128 = 0;
    let mut m: usize = 0;
    while m < i
        invariant
            m <= i <= t.len(),
            acc == utf8_len(t@.take(m as int)),
            acc <= 4 * m,
        decreases i - m,
    {
        assert(t@.take(m + 1).drop_last() =~= t@.take(m as int));
        acc = acc + width_of(t[m]);
        m += 1;
    }
    acc
}

/// The character position of `t` that starts at UTF-8 byte `b`.
fn char_at_byte_vec(t: &Vec<char>, b: u128) -> (r: Option<usize>)
    ensures
        match r {
            Some(k) => char_at_byte_from(t@, b as int, 0, 0) == Some(k as int) && k <= t.len(),
            None => char_at_byte_from(t@, b as int, 0, 0) is None,
        },
{
    let mut k: usize = 0;
    let mut at: u128 = 0;
    while k < t.len() && at < b
        invariant
            k <= t.len(),
            at == utf8_len(t@.take(k as int)),
            at <= 4 * k,
            char_at_byte_from(t@, b as int, 0, 0) == char_at_byte_from(t@, b as int, k as int, at as int),
        decreases t.len() - k,
    {
        assert(t@.take(k + 1).drop_last() =~= t@.take(k as int));
        at = at + width_of(t[k]);
        k += 1;
    }
    if at == b {
        Some(k)
    } else {
        None
    }
}

/// `t` lower-cased as `str::to_lowercase` does it.
fn lowercase_vec(t: &Vec<char>) -> (r: Vec<char>)
    ensures
        r@ == lowercase_of(t@),
{
    let s = string_of(t);
    let l = str_to_lowercase(s.as_str());
    chars_of(l.as_str())
}

// ---------------------------------------------------------------------------
// Cutting trailing words
// ---------------------------------------------------------------------------

/// One trailing `suf` removed, and what is left trimmed (`strip_suffix`, then
/// `trim`); `d` itself when it does not end with `suf`.
pub open spec fn cut_suffix(d: Seq<char>, suf: Seq<char>) -> Seq<char> {
    if ends_with(d, suf) {
        trim(d.take(d.len() - suf.len()))
    } else {
        d
    }
}

/// A trailing courtesy `suf` (lower-case ASCII) cut when the lower-cased `d`
/// ends with it: the last `suf.len()` bytes of `d` dropped and the rest
/// trimmed; `None` when that byte offset falls inside a character of `d`.
pub open spec fn cut_suffix_nocase(d: Seq<char>, suf: Seq<char>) -> Option<Seq<char>> {
    if ends_with(lowercase_of(d), suf) {
        match before_byte(d, utf8_len(d) - suf.len()) {
            Some(h) => Some(trim(h)),
            None => None,
        }
    } else {
        Some(d)
    }
}

/// Each of `sufs[k..]` cut in turn.
pub open spec fn cut_all(d: Seq<char>, sufs: Seq<Seq<char>>, k: int) -> Seq<char>
    decreases sufs.len() - k,
{
    if k < 0 || k >= sufs.len() {
        d
    } else {
        cut_all(cut_suffix(d, sufs[k]), sufs, k + 1)
    }
}

/// Each courtesy of `sufs[k..]` cut in turn; `None` when one cut cannot be
/// made.
pub open spec fn cut_all_nocase(d: Seq<char>, sufs: Seq<Seq<char>>, k: int) -> Option<Seq<char>>
    decreases sufs.len() - k,
{
    if k < 0 || k >= sufs.len() {
        Some(d)
    } else {
        match cut_suffix_nocase(d, sufs[k]) {
            Some(e) => cut_all_nocase(e, sufs, k + 1),
            None => None,
        }
    }
}

pub proof fn lemma_cut_nocase(d: Seq<char>, suf: Seq<char>)
    ensures
        cut_suffix_nocase(d, suf) matches Some(e) ==> e.len() <= d.len() && (e.len() == d.len()
            ==> e == d),
{
    if ends_with(lowercase_of(d), suf) {
        let b = utf8_len(d) - suf.len();
        lemma_char_at_byte_range(d, b, 0, 0);
        if let Some(k) = char_at_byte_from(d, b, 0, 0) {
            lemma_trim_shrinks(d.take(k));
            if trim(d.take(k)).len() == d.len() {
                assert(d.take(k) =~= d);
            }
        }
    }
}

pub proof fn lemma_cut_all(d: Seq<char>, sufs: Seq<Seq<char>>, k: int)
    ensures
        cut_all(d, sufs, k).len() <= d.len(),
        cut_all(d, sufs, k).len() == d.len() ==> cut_all(d, sufs, k) == d,
        cut_all_nocase(d, sufs, k) matches Some(e) ==> e.len() <= d.len() && (e.len() == d.len()
            ==> e == d),
    decreases sufs.len() - k,
{
    if k < 0 || k >= sufs.len() {
    } else {
        let a = cut_suffix(d, sufs[k]);
        lemma_trim_shrinks(d.take(d.len() - sufs[k].len()));
        lemma_cut_all(a, sufs, k + 1);
        if ends_with(d, sufs[k]) && a.len() == d.len() {
            assert(d.take(d.len() - sufs[k].len()) =~= d);
        }
        lemma_cut_nocase(d, sufs[k]);
        if let Some(b) = cut_suffix_nocase(d, sufs[k]) {
            lemma_cut_all(b, sufs, k + 1);
        }
    }
}

// ---------------------------------------------------------------------------
// The destination named in a request
// ---------------------------------------------------------------------------

/// Trailing route words, polite particles and punctuation, cut in this order.
pub open spec fn trail_marks() -> Seq<Seq<char>> {
    seq![
        "怎么走"@,
        "怎么去"@,
        "怎么到"@,
        "路线"@,
        "导航"@,
        "，"@,
        "。"@,
        "！"@,
        "？"@,
        ","@,
        "."@,
        "!"@,
        "?"@,
    ]
}

/// Trailing courtesies, matched case-insensitively, cut after `trail_marks`.
pub open spec fn courtesy_words() -> Seq<Seq<char>> {
    seq!["please"@, "thanks"@, "thank you"@]
}

/// One tidying pass: trim, then cut each trailing mark and courtesy once;
/// `None` when a courtesy cut cannot be made.
pub open spec fn tidy_pass(d: Seq<char>) -> Option<Seq<char>> {
    cut_all_nocase(cut_all(trim(d), trail_marks(), 0), courtesy_words(), 0)
}

pub proof fn lemma_tidy_pass(d: Seq<char>)
    ensures
        tidy_pass(d) matches Some(p) ==> p.len() <= d.len() && (p.len() == d.len() ==> p == d),
{
    lemma_trim_shrinks(d);
    lemma_cut_all(trim(d), trail_marks(), 0);
    lemma_cut_all(cut_all(trim(d), trail_marks(), 0), courtesy_words(), 0);
}

/// Tidying passes repeated until one changes nothing; `None` when a pass
/// cannot be made.
pub open spec fn tidy(d: Seq<char>) -> Option<Seq<char>>
    decreases d.len(),
{
    match tidy_pass(d) {
        None => None,
        Some(p) => if p == d {
            Some(d)
        } else {
            proof {
                lemma_tidy_pass(d);
            }
            tidy(p)
        },
    }
}

pub open spec fn nonempty(s: Seq<char>) -> Option<Seq<char>> {
    if s.len() > 0 {
        Some(s)
    } else {
        None
    }
}

/// What follows the last ` to ` of `s`, found in its lower-cased copy and
/// taken from `s` at the same byte offset, trimmed and cut at a ` from `
/// clause found the same way. `Some(None)` when there is no ` to ` or
/// nothing follows it; `None` when an offset falls inside a character of the
/// text it slices.
pub open spec fn after_to(s: Seq<char>) -> Option<Option<Seq<char>>> {
    let lower = lowercase_of(s);
    match rfind(lower, " to "@) {
        None => Some(None),
        Some(pos) => match from_byte(s, byte_offset(lower, pos) + 4) {
            None => None,
            Some(rest) => {
                let after = trim(rest);
                match find(lowercase_of(after), " from "@) {
                    None => Some(nonempty(after)),
                    Some(f) => match before_byte(after, byte_offset(lowercase_of(after), f)) {
                        None => None,
                        Some(head) => Some(nonempty(trim(head))),
                    },
                }
            },
        },
    }
}

/// What follows the last ` of ` (as in "a map of X"), found as ` to ` is,
/// trimmed.
pub open spec fn after_of(s: Seq<char>) -> Option<Option<Seq<char>>> {
    let lower = lowercase_of(s);
    match rfind(lower, " of "@) {
        None => Some(None),
        Some(pos) => match from_byte(s, byte_offset(lower, pos) + 4) {
            None => None,
            Some(rest) => Some(nonempty(trim(rest))),
        },
    }
}

/// The Chinese "go to" characters 去 and 到.
pub open spec fn is_go_char(c: char) -> bool {
    c == '去' || c == '到'
}

/// The last position `< k` holding 去 or 到.
pub open spec fn last_go_below(s: Seq<char>, k: int) -> Option<int>
    decreases k,
{
    if k <= 0 {
        None
    } else if is_go_char(s[k - 1]) {
        Some(k - 1)
    } else {
        last_go_below(s, k - 1)
    }
}

pub proof fn lemma_last_go_below(s: Seq<char>, k: int)
    requires
        k <= s.len(),
    ensures
        last_go_below(s, k) matches Some(j) ==> 0 <= j < k,
    decreases k,
{
    if k > 0 && !is_go_char(s[k - 1]) {
        lemma_last_go_below(s, k - 1);
    }
}

/// What follows the last 去 / 到, trimmed, if not empty.
pub open spec fn after_go(s: Seq<char>) -> Option<Seq<char>> {
    match last_go_below(s, s.len() as int) {
        None => None,
        Some(j) => nonempty(trim(s.skip(j + 1))),
    }
}

/// The place a request names, before tidying: after ` to `, else after
/// ` of `, else after 去 / 到. `Some(None)` when none names one; `None` when
/// the reading cannot be made.
pub open spec fn raw_destination(s: Seq<char>) -> Option<Option<Seq<char>>> {
    match after_to(s) {
        Some(None) => match after_of(s) {
            Some(None) => Some(after_go(s)),
            other => other,
        },
        other => other,
    }
}

/// The destination of a nav request: the named place, tidied, if anything is
/// left of it (`Some(None)` when nothing is); `None` when a byte offset taken
/// from a lower-cased copy falls inside a character of the text it slices.
pub open spec fn nav_destination_spec(intent: Seq<char>) -> Option<Option<Seq<char>>> {
    match raw_destination(trim(intent)) {
        None => None,
        Some(None) => Some(None),
        Some(Some(d)) => match tidy(d) {
            None => None,
            Some(t) => Some(nonempty(t)),
        },
    }
}

pub open spec fn opt_vec(o: Option<Vec<char>>) -> Option<Seq<char>> {
    match o {
        Some(v) => Some(v@),
        None => None,
    }
}

pub open spec fn opt_opt_vec(o: Option<Option<Vec<char>>>) -> Option<Option<Seq<char>>> {
    match o {
        Some(Some(v)) => Some(Some(v@)),
        Some(None) => Some(None),
        None => None,
    }
}

fn nonempty_vec(t: Vec<char>) -> (r: Option<Vec<char>>)
    ensures
        opt_vec(r) == nonempty(t@),
{
    if t.len() > 0 {
        Some(t)
    } else {
        None
    }
}

/// `t` from character `k` on, trimmed.
fn trimmed_from(t: &Vec<char>, k: usize) -> (r: Vec<char>)
    requires
        k <= t.len(),
    ensures
        r@ == trim(t@.skip(k as int)),
{
    let (lo, hi) = trim_bounds(t, k, t.len());
    assert(t@.skip(k as int) =~= t@.subrange(k as int, t.len() as int));
    slice_vec(t, lo, hi)
}

/// `t` up to character `k`, trimmed.
fn trimmed_before(t: &Vec<char>, k: usize) -> (r: Vec<char>)
    requires
        k <= t.len(),
    ensures
        r@ == trim(t@.take(k as int)),
{
    let (lo, hi) = trim_bounds(t, 0, k);
    assert(t@.take(k as int) =~= t@.subrange(0, k as int));
    slice_vec(t, lo, hi)
}

fn after_to_vec(s: &Vec<char>) -> (r: Option<Option<Vec<char>>>)
    ensures
        opt_opt_vec(r) == after_to(s@),
{
    let lower = lowercase_vec(s);
    let pos = match rfind_str(&lower, " to ") {
        None => return Some(None),
        Some(p) => p,
    };
    proof {
        reveal_strlit(" to ");
        lemma_rfind_below(lower@, " to "@, lower@.len() + 1int);
    }
    let b = byte_offset_vec(&lower, pos) + 4;
    let k = match char_at_byte_vec(s, b) {
        None => return None,
        Some(k) => k,
    };
    let after = trimmed_from(s, k);
    let al = lowercase_vec(&after);
    match find_str(&al, " from ", 0) {
        None => Some(nonempty_vec(after)),
        Some(f) => {
            proof {
                lemma_find_from(al@, " from "@, 0);
            }
            let fb = byte_offset_vec(&al, f);
            match char_at_byte_vec(&after, fb) {
                None => None,
                Some(k2) => Some(nonempty_vec(trimmed_before(&after, k2))),
            }
        },
    }
}

fn after_of_vec(s: &Vec<char>) -> (r: Option<Option<Vec<char>>>)
    ensures
        opt_opt_vec(r) == after_of(s@),
{
    let lower = lowercase_vec(s);
    let pos = match rfind_str(&lower, " of ") {
        None => return Some(None),
        Some(p) => p,
    };
    proof {
        reveal_strlit(" of ");
        lemma_rfind_below(lower@, " of "@, lower@.len() + 1int);
    }
    let b = byte_offset_vec(&lower, pos) + 4;
    match char_at_byte_vec(s, b) {
        None => None,
        Some(k) => Some(nonempty_vec(trimmed_from(s, k))),
    }
}

fn after_go_vec(s: &Vec<char>) -> (r: Option<Vec<char>>)
    ensures
        opt_vec(r) == after_go(s@),
{
    let mut k = s.len();
    while k > 0 && !(s[k - 1] == '去' || s[k - 1] == '到')
        invariant
            k <= s.len(),
            last_go_below(s@, s.len() as int) == last_go_below(s@, k as int),
        decreases k,
    {
        k -= 1;
    }
    if k == 0 {
        return None;
    }
    nonempty_vec(trimmed_from(s, k))
}

/// `cut_suffix` on a vector.
fn cut_suffix_vec(d: &Vec<char>, suf: &str) -> (r: Vec<char>)
    ensures
        r@ == cut_suffix(d@, suf@),
{
    let p = chars_of(suf);
    if ends_with_exec(d, &p) {
        trimmed_before(d, d.len() - p.len())
    } else {
        slice_vec(d, 0, d.len())
    }
}

/// `cut_suffix_nocase` on a vector.
fn cut_courtesy_vec(d: &Vec<char>, suf: &str) -> (r: Option<Vec<char>>)
    ensures
        opt_vec(r) == cut_suffix_nocase(d@, suf@),
{
    let p = chars_of(suf);
    let dl = lowercase_vec(d);
    if !ends_with_exec(&dl, &p) {
        return Some(slice_vec(d, 0, d.len()));
    }
    let total = byte_offset_vec(d, d.len());
    proof {
        assert(d@.take(d.len() as int) =~= d@);
    }
    let n = p.len() as u128;
    if total < n {
        return None;
    }
    match char_at_byte_vec(d, total - n) {
        None => None,
        Some(k) => Some(trimmed_before(d, k)),
    }
}

fn tidy_pass_vec(d: &Vec<char>) -> (r: Option<Vec<char>>)
    ensures
        opt_vec(r) == tidy_pass(d@),
{
    let marks = vec![
        "怎么走",
        "怎么去",
        "怎么到",
        "路线",
        "导航",
        "，",
        "。",
        "！",
        "？",
        ",",
        ".",
        "!",
        "?",
    ];
    let words = vec!["please", "thanks", "thank you"];
    assert(marks@.len() == trail_marks().len());
    assert(forall|j: int| 0 <= j < marks@.len() ==> #[trigger] marks@[j]@ == trail_marks()[j]);
    assert(forall|j: int| 0 <= j < words@.len() ==> #[trigger] words@[j]@ == courtesy_words()[j]);
    let mut cur = trim_vec(d);
    let mut k: usize = 0;
    while k < marks.len()
        invariant
            k <= marks@.len(),
            marks@.len() == trail_marks().len(),
            forall|j: int| 0 <= j < marks@.len() ==> #[trigger] marks@[j]@ == trail_marks()[j],
            cut_all(trim(d@), trail_marks(), 0) == cut_all(cur@, trail_marks(), k as int),
        decreases marks.len() - k,
    {
        cur = cut_suffix_vec(&cur, marks[k]);
        k += 1;
    }
    let mut k: usize = 0;
    while k < words.len()
        invariant
            k <= words@.len(),
            words@.len() == courtesy_words().len(),
            forall|j: int| 0 <= j < words@.len() ==> #[trigger] words@[j]@ == courtesy_words()[j],
            tidy_pass(d@) == cut_all_nocase(cur@, courtesy_words(), k as int),
        decreases words.len() - k,
    {
        cur = match cut_courtesy_vec(&cur, words[k]) {
            Some(c) => c,
            None => return None,
        };
        k += 1;
    }
    Some(cur)
}

fn tidy_vec(d: Vec<char>) -> (r: Option<Vec<char>>)
    ensures
        opt_vec(r) == tidy(d@),
{
    let mut cur = d;
    loop
        invariant
            tidy(cur@) == tidy(d@),
        decreases cur@.len(),
    {
        let p = match tidy_pass_vec(&cur) {
            Some(p) => p,
            None => return None,
        };
        proof {
            lemma_tidy_pass(cur@);
        }
        if p.len() == cur.len() {
            return Some(cur);
        }
        cur = p;
    }
}

/// The destination a request names, or `None` where the reading cannot be
/// made (`nav_destination_spec`).
fn destination_vec(intent: &str) -> (r: Option<Option<Vec<char>>>)
    ensures
        opt_opt_vec(r) == nav_destination_spec(intent@),
{
    let t = chars_of(intent);
    let s = trim_vec(&t);
    let raw = match after_to_vec(&s) {
        None => return None,
        Some(Some(d)) => d,
        Some(None) => match after_of_vec(&s) {
            None => return None,
            Some(Some(d)) => d,
            Some(None) => match after_go_vec(&s) {
                None => return Some(None),
                Some(d) => d,
            },
        },
    };
    match tidy_vec(raw) {
        None => None,
        Some(out) => Some(nonempty_vec(out)),
    }
}

/// The destination a nav request names, so the trip card can open on it:
/// "directions to SFO" gives `SFO`, "how do I get to X from Y" gives `X`,
/// "show me a map of X" gives `X`, "导航去北京南站" gives `北京南站`. Trailing
/// route words, courtesies and punctuation are dropped; `None` when no place
/// is named. ` to ` / ` of ` / ` from ` and the courtesies are found in a
/// lower-cased copy (`str::to_lowercase`) and cut from the request at the
/// byte offsets found there, which must fall on character boundaries.
pub fn extract_nav_destination(intent: &str) -> (r: Option<String>)
    requires
        nav_destination_spec(intent@) is Some,
    ensures
        nav_destination_spec(intent@) == Some(opt_view(r)),
{
    match read_nav_destination(intent) {
        Some(d) => d,
        None => None,
    }
}

/// `extract_nav_destination` for any request: `None` when its reading cannot
/// be made (a byte offset found in a lower-cased copy falls inside a
/// character of the text it slices), else the destination it reads.
pub fn read_nav_destination(intent: &str) -> (r: Option<Option<String>>)
    ensures
        match r {
            Some(d) => nav_destination_spec(intent@) == Some(opt_view(d)),
            None => nav_destination_spec(intent@) is None,
        },
{
    match destination_vec(intent) {
        None => None,
        Some(None) => Some(None),
        Some(Some(d)) => Some(Some(string_of(&d))),
    }
}

// ---------------------------------------------------------------------------
// Places on the router's decision line
// ---------------------------------------------------------------------------

/// A value on the decision line ends at `;`, `|` or a newline.
pub open spec fn is_place_end(c: char) -> bool {
    c == ';' || c == '|' || c == '\n'
}

/// The first value end at or after `k` (the text's length when none).
pub open spec fn place_end(s: Seq<char>, k: int) -> int
    decreases s.len() - k,
{
    if k < 0 || k >= s.len() {
        s.len() as int
    } else if is_place_end(s[k]) {
        k
    } else {
        place_end(s, k + 1)
    }
}

pub proof fn lemma_place_end(s: Seq<char>, k: int)
    requires
        0 <= k <= s.len(),
    ensures
        k <= place_end(s, k) <= s.len(),
    decreases s.len() - k,
{
    if k < s.len() && !is_place_end(s[k]) {
        lemma_place_end(s, k + 1);
    }
}

/// The quotes a value may be wrapped in: `"`, `'`, `“`, `”`.
pub open spec fn is_quote(c: char) -> bool {
    c == '"' || c == '\'' || c == '\u{201c}' || c == '\u{201d}'
}

pub open spec fn quote_prefix_len(s: Seq<char>) -> nat
    decreases s.len(),
{
    if s.len() > 0 && is_quote(s[0]) {
        1 + quote_prefix_len(s.drop_first())
    } else {
        0
    }
}

pub open spec fn quote_suffix_len(s: Seq<char>) -> nat
    decreases s.len(),
{
    if s.len() > 0 && is_quote(s.last()) {
        1 + quote_suffix_len(s.drop_last())
    } else {
        0
    }
}

/// `s` with every leading and trailing quote removed (`str::trim_matches`).
pub open spec fn trim_quotes(s: Seq<char>) -> Seq<char> {
    let a = s.skip(quote_prefix_len(s) as int);
    a.take(a.len() - quote_suffix_len(a))
}

pub proof fn lemma_quote_prefix_len_is(s: Seq<char>, n: int)
    requires
        0 <= n <= s.len(),
        forall|k: int| 0 <= k < n ==> is_quote(s[k]),
        n < s.len() ==> !is_quote(s[n]),
    ensures
        quote_prefix_len(s) == n,
    decreases n,
{
    if n > 0 {
        lemma_quote_prefix_len_is(s.drop_first(), n - 1);
    }
}

pub proof fn lemma_quote_suffix_len_is(s: Seq<char>, n: int)
    requires
        0 <= n <= s.len(),
        forall|k: int| s.len() - n <= k < s.len() ==> is_quote(s[k]),
        n < s.len() ==> !is_quote(s[s.len() - n - 1]),
    ensures
        quote_suffix_len(s) == n,
    decreases n,
{
    if n > 0 {
        lemma_quote_suffix_len_is(s.drop_last(), n - 1);
    }
}

fn is_quote_exec(c: char) -> (r: bool)
    ensures
        r == is_quote(c),
{
    c == '"' || c == '\'' || c == '\u{201c}' || c == '\u{201d}'
}

/// The bounds of `trim_quotes(t[a..b])` inside `t`.
fn trim_quotes_bounds(t: &Vec<char>, a: usize, b: usize) -> (r: (usize, usize))
    requires
        a <= b <= t.len(),
    ensures
        a <= r.0 <= r.1 <= b,
        t@.subrange(r.0 as int, r.1 as int) == trim_quotes(t@.subrange(a as int, b as int)),
{
    let ghost s = t@.subrange(a as int, b as int);
    let mut lo = a;
    while lo < b && is_quote_exec(t[lo])
        invariant
            a <= lo <= b <= t.len(),
            forall|k: int| a <= k < lo ==> is_quote(t@[k]),
        decreases b - lo,
    {
        lo += 1;
    }
    proof {
        lemma_quote_prefix_len_is(s, lo - a);
        assert(s.skip(lo - a) =~= t@.subrange(lo as int, b as int));
    }
    let mut hi = b;
    while hi > lo && is_quote_exec(t[hi - 1])
        invariant
            a <= lo <= hi <= b <= t.len(),
            forall|k: int| hi <= k < b ==> is_quote(t@[k]),
        decreases hi,
    {
        hi -= 1;
    }
    proof {
        let ts = t@.subrange(lo as int, b as int);
        lemma_quote_suffix_len_is(ts, b - hi);
        assert(ts.take(ts.len() - (b - hi)) =~= t@.subrange(lo as int, hi as int));
    }
    (lo, hi)
}

/// The value after the first `key` on the line: up to the next `;`, `|` or
/// newline, trimmed of whitespace and stray quotes; `None` when the key is
/// absent or the value is empty or `0`.
pub open spec fn place_field(s: Seq<char>, key: Seq<char>) -> Option<Seq<char>> {
    match find(s, key) {
        None => None,
        Some(i) => {
            let start = i + key.len();
            let v = trim(trim_quotes(trim(s.subrange(start, place_end(s, start)))));
            if v.len() == 0 || v == seq!['0'] {
                None
            } else {
                Some(v)
            }
        },
    }
}

fn place_field_vec(s: &Vec<char>, key: &str) -> (r: Option<Vec<char>>)
    ensures
        match r {
            Some(v) => place_field(s@, key@) == Some(v@),
            None => place_field(s@, key@) is None,
        },
{
    let kv = chars_of(key);
    let ri = find_from_exec(s, &kv, 0);
    let i = match ri {
        None => return None,
        Some(i) => i,
    };
    proof {
        lemma_find_from(s@, kv@, 0);
        assert(i + kv@.len() <= s.len());
    }
    let start = i + kv.len();
    let mut e = start;
    while e < s.len() && !(s[e] == ';' || s[e] == '|' || s[e] == '\n')
        invariant
            start <= e <= s.len(),
            place_end(s@, start as int) == place_end(s@, e as int),
        decreases s.len() - e,
    {
        e += 1;
    }
    let (lo1, hi1) = trim_bounds(s, start, e);
    let (lo2, hi2) = trim_quotes_bounds(s, lo1, hi1);
    let (lo3, hi3) = trim_bounds(s, lo2, hi2);
    let v = slice_vec(s, lo3, hi3);
    if v.len() == 0 || (v.len() == 1 && v[0] == '0') {
        proof {
            if v.len() == 1 {
                assert(v@ =~= seq!['0']);
            }
        }
        None
    } else {
        Some(v)
    }
}

/// The origin and destination the router appended to a `nav` decision as
/// `from=<origin>; to=<destination>`; either may be absent.
pub fn parse_nav_places(decision: &str) -> (r: (Option<String>, Option<String>))
    ensures
        opt_view(r.0) == place_field(decision@, "from="@),
        opt_view(r.1) == place_field(decision@, "to="@),
{
    let t = chars_of(decision);
    let o = match place_field_vec(&t, "from=") {
        Some(v) => Some(string_of(&v)),
        None => None,
    };
    let d = match place_field_vec(&t, "to=") {
        Some(v) => Some(string_of(&v)),
        None => None,
    };
    (o, d)
}

// ---------------------------------------------------------------------------
// The trip handed to the nav app
// ---------------------------------------------------------------------------

pub open spec fn trip_note_tail() -> Seq<char> {
    "\". Put those in the card's own state as the initial origin and destination queries, so it opens on that route instead of on an empty search box."@
}

pub open spec fn destination_note_tail() -> Seq<char> {
    "\". Put it in the card's own state as the initial destination query, so it opens on that route instead of on an empty search box. The origin is the device's position."@
}

/// Whether the trip of a decision can be read: it names its destination, or
/// the request's destination can be read (`nav_destination_spec`).
pub open spec fn nav_trip_readable(intent: Seq<char>, decision: Seq<char>) -> bool {
    place_field(decision, "to="@) is None ==> nav_destination_spec(intent) is Some
}

/// The request a nav app receives: the user's request, followed by the trip
/// when one is known. The origin and destination come from the decision line;
/// a destination the decision lacks is taken from the request itself.
pub open spec fn nav_trip_spec(intent: Seq<char>, decision: Seq<char>) -> Seq<char> {
    let o = place_field(decision, "from="@);
    let d = match place_field(decision, "to="@) {
        Some(d) => Some(d),
        None => match nav_destination_spec(intent) {
            Some(x) => x,
            None => None,
        },
    };
    match (o, d) {
        (Some(o), Some(d)) => intent + "\n\nThe trip is FROM \""@ + o + "\" TO \""@ + d
            + trip_note_tail(),
        (None, Some(d)) => intent + "\n\nThe destination is \""@ + d + destination_note_tail(),
        _ => intent,
    }
}

/// The generation request for a routed `nav` decision, with the trip stated.
pub fn nav_trip_request(intent: &str, decision: &str) -> (r: String)
    requires
        nav_trip_readable(intent@, decision@),
    ensures
        r@ == nav_trip_spec(intent@, decision@),
{
    let (o, d) = parse_nav_places(decision);
    let d = match d {
        Some(d) => Some(d),
        None => extract_nav_destination(intent),
    };
    match (o, d) {
        (Some(o), Some(d)) => {
            let mut out = chars_of(intent);
            push_str(&mut out, "\n\nThe trip is FROM \"");
            push_str(&mut out, o.as_str());
            push_str(&mut out, "\" TO \"");
            push_str(&mut out, d.as_str());
            push_str(
                &mut out,
                "\". Put those in the card's own state as the initial origin and destination queries, so it opens on that route instead of on an empty search box.",
            );
            string_of(&out)
        },
        (None, Some(d)) => {
            let mut out = chars_of(intent);
            push_str(&mut out, "\n\nThe destination is \"");
            push_str(&mut out, d.as_str());
            push_str(
                &mut out,
                "\". Put it in the card's own state as the initial destination query, so it opens on that route instead of on an empty search box. The origin is the device's position.",
            );
            string_of(&out)
        },
        _ => {
            let out = chars_of(intent);
            string_of(&out)
        },
    }
}

/// `nav_trip_request` for any request and decision: `None` when the trip
/// cannot be read (`nav_trip_readable`).
pub fn read_nav_trip(intent: &str, decision: &str) -> (r: Option<String>)
    ensures
        match r {
            Some(t) => nav_trip_readable(intent@, decision@) && t@ == nav_trip_spec(intent@, decision@),
            None => !nav_trip_readable(intent@, decision@),
        },
{
    let (_, d) = parse_nav_places(decision);
    if d.is_none() && read_nav_destination(intent).is_none() {
        return None;
    }
    Some(nav_trip_request(intent, decision))
}

// ---------------------------------------------------------------------------
// What a place looks like once read
// ---------------------------------------------------------------------------

/// Tidying settles: a tidied place survives one more pass unchanged.
pub proof fn lemma_tidy_settles(d: Seq<char>)
    ensures
        tidy(d) matches Some(t) ==> tidy_pass(t) == Some(t),
    decreases d.len(),
{
    if let Some(p) = tidy_pass(d) {
        if p != d {
            lemma_tidy_pass(d);
            lemma_tidy_settles(p);
        }
    }
}

/// The destination read from a request is non-empty, has no whitespace at
/// either end, and keeps no trailing route word, courtesy or punctuation: one
/// more tidying pass leaves it as it is.
pub proof fn lemma_destination_is_tidy(intent: Seq<char>)
    ensures
        nav_destination_spec(intent) matches Some(Some(d)) ==> d.len() > 0 && trim(d) == d
            && tidy_pass(d) == Some(d),
{
    match raw_destination(trim(intent)) {
        Some(Some(r)) => {
            lemma_tidy_settles(r);
            if let Some(d) = tidy(r) {
                lemma_trim_shrinks(d);
                lemma_cut_all(trim(d), trail_marks(), 0);
                lemma_cut_all(cut_all(trim(d), trail_marks(), 0), courtesy_words(), 0);
            }
        },
        _ => {},
    }
}

/// A place read off the decision line is non-empty, is not `0`, and has no
/// whitespace at either end.
pub proof fn lemma_place_field_shape(s: Seq<char>, key: Seq<char>)
    ensures
        place_field(s, key) matches Some(v) ==> v.len() > 0 && v != seq!['0'] && trim(v) == v,
{
    match find(s, key) {
        None => {},
        Some(i) => {
            let start = i + key.len();
            lemma_trim_idempotent(trim_quotes(trim(s.subrange(start, place_end(s, start)))));
        },
    }
}

} // verus!
