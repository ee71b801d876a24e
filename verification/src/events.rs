//! What a card's `agent.notify` does: the card it came from, the key and
//! value its payload carries, and the change it makes to that card's own
//! state.
use vstd::prelude::*;
use crate::lines::{starts_with, starts_with_exec};
use crate::prompts::{lowercase_of, str_to_lowercase};
use crate::render::{digits_value, lemma_digits_monotone};
use crate::scan::{opt_view, vec_views};
use crate::text::{
    chars_of, contains, decimal, decimal_vec, digit_char, find, find_from_exec, find_str, is_ascii_digit,
    lemma_find_from, push_all, push_str, replace_all, replace_vec, slice_vec, string_of,
};
use crate::tokens::CardState;
use crate::weather::{glass_card_spec, glass_detail_card};
use crate::youtube::{char_end_vec, pieces_from};

verus! {

// ---------------------------------------------------------------------------
// Integers as text
// ---------------------------------------------------------------------------

/// One or more ASCII digits.
pub open spec fn all_digits(s: Seq<char>) -> bool {
    s.len() > 0 && forall|k: int| 0 <= k < s.len() ==> is_ascii_digit(#[trigger] s[k])
}

/// `usize::from_str`: an optional `+`, then one or more ASCII digits whose
/// value fits.
pub open spec fn parse_usize_spec(s: Seq<char>) -> Option<nat> {
    let d = if s.len() > 0 && s[0] == '+' {
        s.skip(1)
    } else {
        s
    };
    if all_digits(d) && digits_value(d) <= usize::MAX {
        Some(digits_value(d))
    } else {
        None
    }
}

/// `i64::from_str`: an optional sign, then one or more ASCII digits whose
/// value is in range.
pub open spec fn parse_i64_spec(s: Seq<char>) -> Option<int> {
    if s.len() > 0 && s[0] == '-' {
        let d = s.skip(1);
        if all_digits(d) && digits_value(d) <= 0x8000_0000_0000_0000 {
            Some(-(digits_value(d) as int))
        } else {
            None
        }
    } else {
        let d = if s.len() > 0 && s[0] == '+' {
            s.skip(1)
        } else {
            s
        };
        if all_digits(d) && digits_value(d) <= i64::MAX {
            Some(digits_value(d) as int)
        } else {
            None
        }
    }
}

/// How `Display` writes the integer `n`.
pub open spec fn int_text(n: int) -> Seq<char> {
    if n < 0 {
        seq!['-'] + decimal((-n) as nat)
    } else {
        decimal(n as nat)
    }
}

/// The value of the digits `t[lo..hi]`, or `None` past `u64::MAX`.
fn digits_u64(t: &Vec<char>, lo: usize, hi: usize) -> (r: Option<u64>)
    requires
        lo <= hi <= t.len(),
        forall|k: int| lo <= k < hi ==> is_ascii_digit(t@[k]),
    ensures
        match r {
            Some(v) => v as nat == digits_value(t@.subrange(lo as int, hi as int)),
            None => digits_value(t@.subrange(lo as int, hi as int)) > u64::MAX,
        },
{
    let mut v: u64 = 0;
    let mut k = lo;
    while k < hi
        invariant
            lo <= k <= hi <= t.len(),
            forall|m: int| lo <= m < hi ==> is_ascii_digit(t@[m]),
            v as nat == digits_value(t@.subrange(lo as int, k as int)),
        decreases hi - k,
    {
        let d = (t[k] as u32 - 48) as u64;
        proof {
            let d0 = t@.subrange(lo as int, k as int);
            let d1 = t@.subrange(lo as int, k + 1);
            assert(d1.drop_last() =~= d0);
            assert(d1.last() == t@[k as int]);
        }
        if v > (u64::MAX - d) / 10 {
            proof {
                assert(v * 10 + d > u64::MAX) by (nonlinear_arith)
                    requires
                        v > (u64::MAX - d) / 10,
                        d <= 9,
                ;
                let whole = t@.subrange(lo as int, hi as int);
                lemma_digits_monotone(whole, (k + 1 - lo) as int);
                assert(whole.take((k + 1 - lo) as int) =~= t@.subrange(lo as int, k + 1));
            }
            return None;
        }
        assert(v * 10 + d <= u64::MAX) by (nonlinear_arith)
            requires
                v <= (u64::MAX - d) / 10,
                d <= 9,
        ;
        v = v * 10 + d;
        k += 1;
    }
    Some(v)
}

/// Whether `t[lo..]` is one or more ASCII digits.
fn all_digits_from(t: &Vec<char>, lo: usize) -> (r: bool)
    requires
        lo <= t.len(),
    ensures
        r == all_digits(t@.subrange(lo as int, t.len() as int)),
        r ==> forall|k: int| lo <= k < t.len() ==> is_ascii_digit(t@[k]),
{
    if lo >= t.len() {
        return false;
    }
    let mut k = lo;
    while k < t.len()
        invariant
            lo <= k <= t.len(),
            forall|m: int| lo <= m < k ==> is_ascii_digit(t@[m]),
        decreases t.len() - k,
    {
        let c = t[k];
        if !('0' <= c && c <= '9') {
            assert(t@.subrange(lo as int, t.len() as int)[k - lo] == c);
            return false;
        }
        k += 1;
    }
    true
}

fn parse_usize_vec(t: &Vec<char>) -> (r: Option<usize>)
    ensures
        match r {
            Some(v) => parse_usize_spec(t@) == Some(v as nat),
            None => parse_usize_spec(t@) is None,
        },
{
    let start: usize = if t.len() > 0 && t[0] == '+' {
        1
    } else {
        0
    };
    proof {
        if start == 1 {
            assert(t@.skip(1) =~= t@.subrange(1, t.len() as int));
        } else {
            assert(t@ =~= t@.subrange(0, t.len() as int));
        }
    }
    if !all_digits_from(t, start) {
        return None;
    }
    match digits_u64(t, start, t.len()) {
        None => None,
        Some(v) => if v <= usize::MAX as u64 {
            Some(v as usize)
        } else {
            None
        },
    }
}

fn parse_i64_vec(t: &Vec<char>) -> (r: Option<i64>)
    ensures
        match r {
            Some(v) => parse_i64_spec(t@) == Some(v as int),
            None => parse_i64_spec(t@) is None,
        },
{
    if t.len() > 0 && t[0] == '-' {
        assert(t@.skip(1) =~= t@.subrange(1, t.len() as int));
        if !all_digits_from(t, 1) {
            return None;
        }
        match digits_u64(t, 1, t.len()) {
            None => None,
            Some(v) => if v < 0x8000_0000_0000_0000 {
                Some(-(v as i64))
            } else if v == 0x8000_0000_0000_0000 {
                Some(i64::MIN)
            } else {
                None
            },
        }
    } else {
        let start: usize = if t.len() > 0 && t[0] == '+' {
            1
        } else {
            0
        };
        proof {
            if start == 1 {
                assert(t@.skip(1) =~= t@.subrange(1, t.len() as int));
            } else {
                assert(t@ =~= t@.subrange(0, t.len() as int));
            }
        }
        if !all_digits_from(t, start) {
            return None;
        }
        match digits_u64(t, start, t.len()) {
            None => None,
            Some(v) => if v <= 0x7fff_ffff_ffff_ffff {
                Some(v as i64)
            } else {
                None
            },
        }
    }
}

fn i64_text(n: i64) -> (r: Vec<char>)
    ensures
        r@ == int_text(n as int),
{
    if n < 0 {
        let mag: u64 = if n == i64::MIN {
            0x8000_0000_0000_0000
        } else {
            (-n) as u64
        };
        let mut out: Vec<char> = Vec::new();
        out.push('-');
        let d = decimal_vec(mag);
        push_all(&mut out, &d);
        assert(out@ =~= seq!['-'] + decimal(mag as nat));
        out
    } else {
        decimal_vec(n as u64)
    }
}

// ---------------------------------------------------------------------------
// The notify id
// ---------------------------------------------------------------------------

pub open spec fn opt_nat(o: Option<usize>) -> Option<nat> {
    match o {
        Some(v) => Some(v as nat),
        None => None,
    }
}

/// The card and event of a notify id `<card_id>:<event>`: the card when the
/// text before the first `:` parses as a `usize`, and the rest lower-cased;
/// an id without `:` names no card.
pub open spec fn notify_target_spec(event_id: Seq<char>) -> (Option<nat>, Seq<char>) {
    match find(event_id, seq![':']) {
        Some(c) => (parse_usize_spec(event_id.take(c)), lowercase_of(event_id.skip(c + 1))),
        None => (None, lowercase_of(event_id)),
    }
}

/// Splits a tagged notify id into the card that fired it and its event
/// (lower-cased).
pub fn notify_target(event_id: &str) -> (r: (Option<usize>, String))
    ensures
        (opt_nat(r.0), r.1@) == notify_target_spec(event_id@),
{
    let t = chars_of(event_id);
    let mut colon: Vec<char> = Vec::new();
    colon.push(':');
    assert(colon@ =~= seq![':']);
    match find_from_exec(&t, &colon, 0) {
        Some(c) => {
            proof {
                lemma_find_from(t@, colon@, 0);
                assert(c + colon@.len() <= t.len());
            }
            let head = slice_vec(&t, 0, c);
            let rest = slice_vec(&t, c + 1, t.len());
            proof {
                assert(head@ =~= t@.take(c as int));
                assert(rest@ =~= t@.skip(c + 1));
            }
            let id = parse_usize_vec(&head);
            let rs = string_of(&rest);
            (id, str_to_lowercase(rs.as_str()))
        },
        None => (None, str_to_lowercase(event_id)),
    }
}

// ---------------------------------------------------------------------------
// The payload
// ---------------------------------------------------------------------------

/// The string a JSON text holds under `field`, when it is an object with a
/// string there.
pub uninterp spec fn json_str_field(text: Seq<char>, field: Seq<char>) -> Option<Seq<char>>;

/// serde_json's `from_str` into a `Value`, then the string under `field`.
/// Its result is named by `json_str_field`, a function of the two arguments
/// alone; nothing of JSON itself is stated.
#[verifier::external_body]
fn json_field(text: &str, field: &str) -> (r: Option<String>)
    ensures
        opt_view(r) == json_str_field(text@, field@),
{
    match serde_json::from_str::<serde_json::Value>(text) {
        Ok(v) => match v.get(field) {
            Some(x) => match x.as_str() {
                Some(s) => Some(s.to_string()),
                None => None,
            },
            None => None,
        },
        Err(_) => None,
    }
}

/// The state key a notify payload names (`{"key": …}`); `count` when it
/// names none.
pub fn notify_key(payload: &str) -> (r: String)
    ensures
        r@ == (match json_str_field(payload@, "key"@) {
            Some(k) => k,
            None => "count"@,
        }),
{
    match json_field(payload, "key") {
        Some(k) => k,
        None => "count".to_string(),
    }
}

/// The string value a notify payload carries (`{"value": …}`), if any.
pub fn notify_value(payload: &str) -> (r: Option<String>)
    ensures
        opt_view(r) == json_str_field(payload@, "value"@),
{
    json_field(payload, "value")
}

// ---------------------------------------------------------------------------
// The state change
// ---------------------------------------------------------------------------

/// The number a card's state holds under `key`: `0` when it holds none or
/// the text is not an `i64`.
pub open spec fn counter_value(m: Map<Seq<char>, Seq<char>>, key: Seq<char>) -> int {
    if m.contains_key(key) {
        match parse_i64_spec(m[key]) {
            Some(n) => n,
            None => 0,
        }
    } else {
        0
    }
}

/// `n` wrapped into the `i64` range, as release-build arithmetic wraps.
pub open spec fn wrap_i64(n: int) -> int {
    if n > i64::MAX {
        n - 0x1_0000_0000_0000_0000
    } else if n < i64::MIN {
        n + 0x1_0000_0000_0000_0000
    } else {
        n
    }
}

/// `ev` counts up: it mentions `inc`, `plus` or `add`.
pub open spec fn counts_up(ev: Seq<char>) -> bool {
    contains(ev, "inc"@) || contains(ev, "plus"@) || contains(ev, "add"@)
}

/// `ev` counts down: it mentions `dec`, `minus` or `sub`.
pub open spec fn counts_down(ev: Seq<char>) -> bool {
    contains(ev, "dec"@) || contains(ev, "minus"@) || contains(ev, "sub"@)
}

/// `ev` resets: it mentions `reset` or `clear`.
pub open spec fn resets(ev: Seq<char>) -> bool {
    contains(ev, "reset"@) || contains(ev, "clear"@)
}

/// The state an event leaves a card in, checked in this order: counting up
/// or down by one (wrapping), resetting to `0`, then `set…` storing the
/// carried value; `None` when the event changes nothing.
pub open spec fn card_event_spec(
    m: Map<Seq<char>, Seq<char>>,
    ev: Seq<char>,
    key: Seq<char>,
    value: Option<Seq<char>>,
) -> Option<Map<Seq<char>, Seq<char>>> {
    if counts_up(ev) {
        Some(m.insert(key, int_text(wrap_i64(counter_value(m, key) + 1))))
    } else if counts_down(ev) {
        Some(m.insert(key, int_text(wrap_i64(counter_value(m, key) - 1))))
    } else if resets(ev) {
        Some(m.insert(key, "0"@))
    } else if starts_with(ev, "set"@) {
        match value {
            Some(v) => Some(m.insert(key, v)),
            None => None,
        }
    } else {
        None
    }
}

pub open spec fn opt_str(o: Option<&str>) -> Option<Seq<char>> {
    match o {
        Some(s) => Some(s@),
        None => None,
    }
}

fn counter_exec(state: &CardState, key: &str) -> (r: i64)
    ensures
        r as int == counter_value(state@, key@),
{
    match state.get(key) {
        Some(v) => {
            let t = chars_of(v.as_str());
            match parse_i64_vec(&t) {
                Some(n) => n,
                None => 0,
            }
        },
        None => 0,
    }
}

/// Applies a card's event to its own state: `inc` / `plus` / `add` and
/// `dec` / `minus` / `sub` count `key` up or down by one, `reset` / `clear`
/// set it to `0`, and `set…` stores the carried value. Returns whether the
/// state changed (a `set` without a value, or any other event, changes
/// nothing).
pub fn apply_card_event(state: &mut CardState, ev: &str, key: &str, value: Option<&str>) -> (changed: bool)
    ensures
        match card_event_spec(old(state)@, ev@, key@, opt_str(value)) {
            Some(m) => changed && final(state)@ == m,
            None => !changed && final(state)@ == old(state)@,
        },
{
    let e = chars_of(ev);
    let up = find_str(&e, "inc", 0).is_some() || find_str(&e, "plus", 0).is_some() || find_str(
        &e,
        "add",
        0,
    ).is_some();
    if up {
        let n = counter_exec(state, key);
        let next: i64 = if n == i64::MAX {
            i64::MIN
        } else {
            n + 1
        };
        let txt = i64_text(next);
        state.insert(key.to_string(), string_of(&txt));
        return true;
    }
    let down = find_str(&e, "dec", 0).is_some() || find_str(&e, "minus", 0).is_some() || find_str(
        &e,
        "sub",
        0,
    ).is_some();
    if down {
        let n = counter_exec(state, key);
        let next: i64 = if n == i64::MIN {
            i64::MAX
        } else {
            n - 1
        };
        let txt = i64_text(next);
        state.insert(key.to_string(), string_of(&txt));
        return true;
    }
    if find_str(&e, "reset", 0).is_some() || find_str(&e, "clear", 0).is_some() {
        state.insert(key.to_string(), "0".to_string());
        return true;
    }
    if starts_with_exec(&e, "set") {
        match value {
            Some(v) => {
                state.insert(key.to_string(), v.to_string());
                return true;
            },
            None => return false,
        }
    }
    false
}

proof fn lemma_digit_char(n: nat)
    ensures
        digit_char(n) as int == n % 10 + 48,
        is_ascii_digit(digit_char(n)),
{
    let k = n % 10;
    assert(0 <= k < 10);
    assert(((k as int + 48) as char) as int == k + 48);
}

/// `decimal` writes digits that read back as the number.
pub proof fn lemma_decimal_reads_back(n: nat)
    ensures
        all_digits(decimal(n)),
        digits_value(decimal(n)) == n,
    decreases n,
{
    lemma_digit_char(n);
    if n < 10 {
        assert(decimal(n) =~= seq![digit_char(n)]);
        assert(decimal(n).drop_last() =~= Seq::<char>::empty());
        assert(n % 10 == n);
        let d = decimal(n);
        assert(digits_value(d) == digits_value(d.drop_last()) * 10 + ((d.last() as int - 48) as nat));
    } else {
        lemma_decimal_reads_back(n / 10);
        let d = decimal(n);
        assert(d.drop_last() =~= decimal(n / 10));
        assert(d.last() == digit_char(n % 10));
        assert(n == (n / 10) * 10 + n % 10);
        assert(digits_value(d) == digits_value(d.drop_last()) * 10 + ((d.last() as int - 48) as nat));
        assert(digits_value(d) == (n / 10) * 10 + n % 10);
        assert forall|k: int| 0 <= k < d.len() implies is_ascii_digit(#[trigger] d[k]) by {
            if k < d.len() - 1 {
                assert(d[k] == decimal(n / 10)[k]);
            }
        }
    }
}

/// An `i64` written by `Display` parses back as itself.
pub proof fn lemma_int_text_parses(n: int)
    requires
        i64::MIN <= n <= i64::MAX,
    ensures
        parse_i64_spec(int_text(n)) == Some(n),
{
    if n < 0 {
        lemma_decimal_reads_back((-n) as nat);
        let t = int_text(n);
        assert(t.skip(1) =~= decimal((-n) as nat));
    } else {
        lemma_decimal_reads_back(n as nat);
        let d = decimal(n as nat);
        assert(is_ascii_digit(d[0]));
    }
}

/// Law: an event that mentions `reset` or `clear` (and no counting word)
/// zeroes the key and reports a change, whatever the key held and whatever
/// value the event carries; every other key keeps its value.
pub proof fn lemma_clear_zeroes(
    m: Map<Seq<char>, Seq<char>>,
    ev: Seq<char>,
    key: Seq<char>,
    value: Option<Seq<char>>,
)
    requires
        contains(ev, "reset"@) || contains(ev, "clear"@),
        !contains(ev, "inc"@) && !contains(ev, "plus"@) && !contains(ev, "add"@),
        !contains(ev, "dec"@) && !contains(ev, "minus"@) && !contains(ev, "sub"@),
    ensures
        card_event_spec(m, ev, key, value) matches Some(m2) && m2.dom() == m.dom().insert(key)
            && m2[key] == "0"@ && forall|k: Seq<char>| k != key && #[trigger] m.contains_key(k)
            ==> m2[k] == m[k],
{
    let m2 = m.insert(key, "0"@);
    assert(m2.dom() =~= m.dom().insert(key));
}

/// Law: a `set…` event (one that mentions no counting or resetting word)
/// stores the carried value under the key and reports a change; without a
/// value it changes nothing.
pub proof fn lemma_set_stores_value(
    m: Map<Seq<char>, Seq<char>>,
    ev: Seq<char>,
    key: Seq<char>,
    value: Option<Seq<char>>,
)
    requires
        starts_with(ev, "set"@),
        !contains(ev, "inc"@) && !contains(ev, "plus"@) && !contains(ev, "add"@),
        !contains(ev, "dec"@) && !contains(ev, "minus"@) && !contains(ev, "sub"@),
        !contains(ev, "reset"@) && !contains(ev, "clear"@),
    ensures
        match value {
            Some(v) => card_event_spec(m, ev, key, value) matches Some(m2) && m2.dom() == m.dom().insert(
                key,
            ) && m2[key] == v && forall|k: Seq<char>| k != key && #[trigger] m.contains_key(k) ==> m2[k]
                == m[k],
            None => card_event_spec(m, ev, key, value) is None,
        },
{
    if let Some(v) = value {
        let m2 = m.insert(key, v);
        assert(m2.dom() =~= m.dom().insert(key));
    }
}

/// Law: counting a card's value up and then down (or down and then up)
/// leaves it where it was; a key that held no number reads as `0` and reads
/// `0` again.
pub proof fn lemma_count_up_down_restores(
    m: Map<Seq<char>, Seq<char>>,
    up: Seq<char>,
    down: Seq<char>,
    key: Seq<char>,
    v1: Option<Seq<char>>,
    v2: Option<Seq<char>>,
)
    requires
        counts_up(up),
        !counts_up(down),
        counts_down(down),
    ensures
        ({
            let m1 = card_event_spec(m, up, key, v1).unwrap();
            counter_value(card_event_spec(m1, down, key, v2).unwrap(), key) == counter_value(m, key)
        }),
        ({
            let m1 = card_event_spec(m, down, key, v1).unwrap();
            counter_value(card_event_spec(m1, up, key, v2).unwrap(), key) == counter_value(m, key)
        }),
{
    let c = counter_value(m, key);
    assert(i64::MIN <= c <= i64::MAX) by {
        if m.contains_key(key) {
            lemma_parse_i64_range(m[key]);
        }
    }
    lemma_int_text_parses(wrap_i64(c + 1));
    lemma_int_text_parses(wrap_i64(c - 1));
    let m1 = card_event_spec(m, up, key, v1).unwrap();
    lemma_int_text_parses(wrap_i64(wrap_i64(c + 1) - 1));
    let m2 = card_event_spec(m, down, key, v1).unwrap();
    lemma_int_text_parses(wrap_i64(wrap_i64(c - 1) + 1));
}

/// What `parse_i64_spec` reads is an `i64`.
pub proof fn lemma_parse_i64_range(s: Seq<char>)
    ensures
        parse_i64_spec(s) matches Some(n) ==> i64::MIN <= n <= i64::MAX,
{
}

// ---------------------------------------------------------------------------
// A weather-list row
// ---------------------------------------------------------------------------

/// The pieces of `t` split at every `sep`.
fn split_char_vec(t: &Vec<char>, sep: char) -> (r: Vec<Vec<char>>)
    ensures
        vec_views(r@) == pieces_from(t@, 0, sep),
{
    let mut r: Vec<Vec<char>> = Vec::new();
    let mut i: usize = 0;
    assert(vec_views(r@) + pieces_from(t@, 0, sep) =~= pieces_from(t@, 0, sep));
    loop
        invariant
            i <= t.len(),
            pieces_from(t@, 0, sep) == vec_views(r@) + pieces_from(t@, i as int, sep),
        decreases t.len() - i,
    {
        let e = char_end_vec(t, i, sep);
        let piece = slice_vec(t, i, e);
        let ghost before = vec_views(r@);
        r.push(piece);
        assert(vec_views(r@) =~= before.push(t@.subrange(i as int, e as int)));
        if e >= t.len() {
            assert(before + pieces_from(t@, i as int, sep) =~= vec_views(r@));
            return r;
        }
        assert(before + pieces_from(t@, i as int, sep) =~= vec_views(r@) + pieces_from(
            t@,
            e + 1,
            sep,
        ));
        i = e + 1;
    }
}

/// The message a `city` event adds: the glass detail card of the city the
/// value names as `<name>|<lat>|<lon>|<cond>`, in a `runsplash` block;
/// `None` for an event that is not `city` or a value without exactly four
/// parts.
pub open spec fn city_message_spec(ev: Seq<char>, value: Option<Seq<char>>) -> Option<Seq<char>> {
    match value {
        Some(v) => {
            let p = pieces_from(v, 0, '|');
            if contains(ev, "city"@) && p.len() == 4 {
                Some("```runsplash\n"@ + glass_card_spec(p[0], p[1], p[2], p[3]) + "\n```"@)
            } else {
                None
            }
        },
        None => None,
    }
}

/// A weather-list row's `city` event shows that city's glass detail card
/// directly, with no generation: the message to add, if the event is one.
pub fn city_event_message(ev: &str, value: Option<&str>) -> (r: Option<String>)
    ensures
        opt_view(r) == city_message_spec(ev@, opt_str(value)),
{
    let v = match value {
        Some(v) => v,
        None => return None,
    };
    let e = chars_of(ev);
    if find_str(&e, "city", 0).is_none() {
        return None;
    }
    let t = chars_of(v);
    let p = split_char_vec(&t, '|');
    if p.len() != 4 {
        return None;
    }
    let name = string_of(&p[0]);
    let lat = string_of(&p[1]);
    let lon = string_of(&p[2]);
    let cond = string_of(&p[3]);
    let dsl = glass_detail_card(name.as_str(), lat.as_str(), lon.as_str(), cond.as_str());
    let mut out = chars_of("```runsplash\n");
    push_str(&mut out, dsl.as_str());
    push_str(&mut out, "\n```");
    Some(string_of(&out))
}

// ---------------------------------------------------------------------------
// Deep links
// ---------------------------------------------------------------------------

/// A shared link as the payload of the web card's `deeplink` event: a JSON
/// string, its backslashes and then its quotes escaped.
pub open spec fn deeplink_payload_spec(url: Seq<char>) -> Seq<char> {
    seq!['"'] + replace_all(replace_all(url, seq!['\\'], seq!['\\', '\\']), seq!['"'], seq!['\\', '"'])
        + seq!['"']
}

/// The payload of the `deeplink` event that hands a shared link (a YouTube
/// url shared from another app) to the web card.
pub fn deeplink_payload(url: &str) -> (r: String)
    ensures
        r@ == deeplink_payload_spec(url@),
{
    let t = chars_of(url);
    let mut bs: Vec<char> = Vec::new();
    bs.push('\\');
    let mut bs2: Vec<char> = Vec::new();
    bs2.push('\\');
    bs2.push('\\');
    let mut q: Vec<char> = Vec::new();
    q.push('"');
    let mut bq: Vec<char> = Vec::new();
    bq.push('\\');
    bq.push('"');
    assert(bs@ =~= seq!['\\']);
    assert(bs2@ =~= seq!['\\', '\\']);
    assert(q@ =~= seq!['"']);
    assert(bq@ =~= seq!['\\', '"']);
    let a = replace_vec(&t, &bs, &bs2);
    let b = replace_vec(&a, &q, &bq);
    let mut out: Vec<char> = Vec::new();
    out.push('"');
    push_all(&mut out, &b);
    out.push('"');
    assert(out@ =~= deeplink_payload_spec(url@));
    string_of(&out)
}

} // verus!
