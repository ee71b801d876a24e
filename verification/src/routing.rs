//! The router's decision line and the title a composed app is given.
use vstd::prelude::*;
use crate::lines::{
    dash_prefix_len, is_slug_char, lemma_dash_prefix_is, lemma_dash_suffix_is, lemma_trim_dashes,
    trim_dashes,
};
use crate::text::{
    ascii_lower_seq, ascii_lower_vec, ascii_upper, ascii_upper_exec, chars_of, is_ascii_alnum,
    is_ws, is_ws_exec, lemma_rfind_below, lemma_ws_suffix_len_is, push_str, rfind, rfind_str,
    slice_vec, string_of, trim, trim_bounds, trim_end, vec_eq,
};

verus! {

// ---------------------------------------------------------------------------
// App ids
// ---------------------------------------------------------------------------

/// A character an app id keeps: ASCII alphanumeric or `-`.
pub open spec fn is_id_char(c: char) -> bool {
    is_ascii_alnum(c) || c == '-'
}

/// The id characters of `s`, in order.
pub open spec fn id_chars(s: Seq<char>) -> Seq<char>
    decreases s.len(),
{
    if s.len() == 0 {
        seq![]
    } else if is_id_char(s.last()) {
        id_chars(s.drop_last()).push(s.last())
    } else {
        id_chars(s.drop_last())
    }
}

/// A token normalised to an app id: id characters only, no leading or
/// trailing `-`, lower case, at most 40 characters.
pub open spec fn clean_id(tok: Seq<char>) -> Seq<char> {
    let c = ascii_lower_seq(trim_dashes(id_chars(tok)));
    if c.len() > 40 {
        c.take(40)
    } else {
        c
    }
}

fn trim_dashes_vec(s: &Vec<char>) -> (r: Vec<char>)
    ensures
        r@ == trim_dashes(s@),
{
    let mut p: usize = 0;
    while p < s.len() && s[p] == '-'
        invariant
            p <= s.len(),
            forall|k: int| 0 <= k < p ==> s@[k] == '-',
        decreases s.len() - p,
    {
        p += 1;
    }
    proof {
        lemma_dash_prefix_is(s@, p as int);
    }
    let ghost a = s@.skip(p as int);
    let mut q = s.len();
    while q > p && s[q - 1] == '-'
        invariant
            p <= q <= s.len(),
            forall|k: int| q <= k < s.len() ==> s@[k] == '-',
        decreases q,
    {
        q -= 1;
    }
    proof {
        lemma_dash_suffix_is(a, (s.len() - q) as int);
        assert(a.take(a.len() - (s.len() - q)) =~= s@.subrange(p as int, q as int));
    }
    slice_vec(s, p, q)
}

fn clean_id_vec(t: &Vec<char>, lo: usize, hi: usize) -> (r: Vec<char>)
    requires
        lo <= hi <= t.len(),
    ensures
        r@ == clean_id(t@.subrange(lo as int, hi as int)),
{
    let mut kept: Vec<char> = Vec::new();
    let mut i = lo;
    while i < hi
        invariant
            lo <= i <= hi <= t.len(),
            kept@ == id_chars(t@.subrange(lo as int, i as int)),
        decreases hi - i,
    {
        let c = t[i];
        assert(t@.subrange(lo as int, i + 1).drop_last() =~= t@.subrange(lo as int, i as int));
        if ('a' <= c && c <= 'z') || ('A' <= c && c <= 'Z') || ('0' <= c && c <= '9') || c == '-' {
            kept.push(c);
        }
        i += 1;
    }
    let d = trim_dashes_vec(&kept);
    let l = ascii_lower_vec(&d);
    if l.len() > 40 {
        let r = slice_vec(&l, 0, 40);
        assert(r@ =~= l@.take(40));
        r
    } else {
        l
    }
}

// ---------------------------------------------------------------------------
// Token boundaries
// ---------------------------------------------------------------------------

/// The first position `>= k` holding whitespace (or, when `dash`, an em
/// dash); the length when there is none.
pub open spec fn token_end(s: Seq<char>, k: int, dash: bool) -> int
    decreases s.len() - k,
{
    if k < 0 || k >= s.len() {
        s.len() as int
    } else if is_ws(s[k]) || (dash && s[k] == '\u{2014}') {
        k
    } else {
        token_end(s, k + 1, dash)
    }
}

pub proof fn lemma_token_end(s: Seq<char>, k: int, dash: bool)
    requires
        0 <= k <= s.len(),
    ensures
        k <= token_end(s, k, dash) <= s.len(),
    decreases s.len() - k,
{
    if k < s.len() && !(is_ws(s[k]) || (dash && s[k] == '\u{2014}')) {
        lemma_token_end(s, k + 1, dash);
    }
}

fn token_end_vec(t: &Vec<char>, k: usize, dash: bool) -> (r: usize)
    requires
        k <= t.len(),
    ensures
        r == token_end(t@, k as int, dash),
        k <= r <= t.len(),
{
    let mut e = k;
    while e < t.len() && !(is_ws_exec(t[e]) || (dash && t[e] == '\u{2014}'))
        invariant
            k <= e <= t.len(),
            token_end(t@, k as int, dash) == token_end(t@, e as int, dash),
        decreases t.len() - e,
    {
        e += 1;
    }
    e
}

/// The last whitespace position `< k`.
pub open spec fn last_ws_below(s: Seq<char>, k: int) -> Option<int>
    decreases k,
{
    if k <= 0 {
        None
    } else if is_ws(s[k - 1]) {
        Some(k - 1)
    } else {
        last_ws_below(s, k - 1)
    }
}

pub proof fn lemma_last_ws_below(s: Seq<char>, k: int)
    ensures
        last_ws_below(s, k) matches Some(j) ==> 0 <= j < k,
    decreases k,
{
    if k > 0 && !is_ws(s[k - 1]) {
        lemma_last_ws_below(s, k - 1);
    }
}

/// The last `'\n'` position `< k`.
pub open spec fn last_newline_below(s: Seq<char>, k: int) -> Option<int>
    decreases k,
{
    if k <= 0 {
        None
    } else if s[k - 1] == '\n' {
        Some(k - 1)
    } else {
        last_newline_below(s, k - 1)
    }
}

pub proof fn lemma_last_newline_below(s: Seq<char>, k: int)
    ensures
        last_newline_below(s, k) matches Some(j) ==> 0 <= j < k,
    decreases k,
{
    if k > 0 && s[k - 1] != '\n' {
        lemma_last_newline_below(s, k - 1);
    }
}

/// The trimmed last line of `t[..end]` that holds anything but whitespace
/// (empty when none does).
pub open spec fn last_content_line(t: Seq<char>, end: int) -> Seq<char>
    decreases end,
{
    if end < 0 {
        seq![]
    } else {
        proof {
            lemma_last_newline_below(t, end);
        }
        match last_newline_below(t, end) {
            Some(j) => {
                let l = trim(t.subrange(j + 1, end));
                if l.len() > 0 {
                    l
                } else {
                    last_content_line(t, j)
                }
            },
            None => trim(t.take(end)),
        }
    }
}

fn last_content_line_vec(t: &Vec<char>) -> (r: Vec<char>)
    ensures
        r@ == last_content_line(t@, t.len() as int),
{
    let mut end = t.len();
    loop
        invariant
            end <= t.len(),
            last_content_line(t@, t.len() as int) == last_content_line(t@, end as int),
        decreases end,
    {
        let mut j = end;
        while j > 0 && t[j - 1] != '\n'
            invariant
                j <= end <= t.len(),
                last_newline_below(t@, end as int) == last_newline_below(t@, j as int),
            decreases j,
        {
            j -= 1;
        }
        let (lo, hi) = trim_bounds(t, j, end);
        if j == 0 {
            assert(t@.take(end as int) =~= t@.subrange(0, end as int));
            return slice_vec(t, lo, hi);
        }
        if hi > lo {
            return slice_vec(t, lo, hi);
        }
        end = j - 1;
    }
}

// ---------------------------------------------------------------------------
// The decision line
// ---------------------------------------------------------------------------

/// `compose <id>`: the token after the last `compose ` (ASCII
/// case-insensitive), up to whitespace or an em dash; a composed id always
/// holds a `-`.
pub open spec fn compose_choice(text: Seq<char>) -> Option<Seq<char>> {
    match rfind(ascii_lower_seq(text), "compose "@) {
        None => None,
        Some(pos) => {
            let id = clean_id(text.subrange(pos + 8, token_end(text, pos + 8, true)));
            if id.contains('-') {
                Some(id)
            } else {
                None
            }
        },
    }
}

/// `<id> — <reason>`: the token just before the last em dash.
pub open spec fn dash_choice(text: Seq<char>) -> Option<Seq<char>> {
    match rfind(text, seq!['\u{2014}']) {
        None => None,
        Some(dash) => {
            let before = trim_end(text.take(dash));
            let seg = match last_ws_below(before, before.len() as int) {
                Some(w) => before.skip(w + 1),
                None => before,
            };
            let id = clean_id(seg);
            if id.len() > 0 {
                Some(id)
            } else {
                None
            }
        },
    }
}

/// A bare decision: the first token of the last non-blank line, or the
/// token after a leading `compose`.
pub open spec fn bare_choice(text: Seq<char>) -> (bool, Seq<char>) {
    let line = last_content_line(text, text.len() as int);
    let e = token_end(line, 0, false);
    let first = clean_id(line.take(e));
    if first == "compose"@ {
        (
            true,
            if e < line.len() {
                clean_id(line.subrange(e + 1, token_end(line, e + 1, false)))
            } else {
                seq![]
            },
        )
    } else {
        (false, first)
    }
}

/// `(is_compose, app_id)` read from the router's reply.
pub open spec fn ama_decision_spec(text: Seq<char>) -> (bool, Seq<char>) {
    match compose_choice(text) {
        Some(id) => (true, id),
        None => match dash_choice(text) {
            Some(id) => (false, id),
            None => bare_choice(text),
        },
    }
}

fn has_dash(v: &Vec<char>) -> (r: bool)
    ensures
        r == v@.contains('-'),
{
    let mut i: usize = 0;
    while i < v.len()
        invariant
            i <= v.len(),
            forall|k: int| 0 <= k < i ==> v@[k] != '-',
        decreases v.len() - i,
    {
        if v[i] == '-' {
            assert(v@[i as int] == '-');
            return true;
        }
        i += 1;
    }
    false
}

fn compose_choice_vec(t: &Vec<char>) -> (r: Option<Vec<char>>)
    ensures
        match r {
            Some(id) => compose_choice(t@) == Some(id@),
            None => compose_choice(t@) is None,
        },
{
    let lower = ascii_lower_vec(t);
    let rp = rfind_str(&lower, "compose ");
    let pos = match rp {
        None => return None,
        Some(p) => p,
    };
    proof {
        reveal_strlit("compose ");
        lemma_rfind_below(lower@, "compose "@, lower@.len() + 1int);
        assert(pos + 8 <= t.len());
    }
    let e = token_end_vec(t, pos + 8, true);
    let id = clean_id_vec(t, pos + 8, e);
    if has_dash(&id) {
        Some(id)
    } else {
        None
    }
}

fn dash_choice_vec(t: &Vec<char>) -> (r: Option<Vec<char>>)
    ensures
        match r {
            Some(id) => dash_choice(t@) == Some(id@),
            None => dash_choice(t@) is None,
        },
{
    let rd = rfind_str(t, "\u{2014}");
    proof {
        reveal_strlit("\u{2014}");
        assert("\u{2014}"@ =~= seq!['\u{2014}']);
    }
    let dash = match rd {
        None => return None,
        Some(d) => d,
    };
    proof {
        lemma_rfind_below(t@, seq!['\u{2014}'], (t@.len() + 1) as int);
    }
    let mut hb = dash;
    while hb > 0 && is_ws_exec(t[hb - 1])
        invariant
            hb <= dash <= t.len(),
            forall|k: int| hb <= k < dash ==> is_ws(t@[k]),
        decreases hb,
    {
        hb -= 1;
    }
    let before = slice_vec(t, 0, hb);
    proof {
        let s = t@.take(dash as int);
        lemma_ws_suffix_len_is(s, dash - hb);
        assert(trim_end(s) =~= before@);
    }
    let mut w = before.len();
    while w > 0 && !is_ws_exec(before[w - 1])
        invariant
            w <= before.len(),
            last_ws_below(before@, before.len() as int) == last_ws_below(before@, w as int),
        decreases w,
    {
        w -= 1;
    }
    let id = clean_id_vec(&before, w, before.len());
    proof {
        if w > 0 {
            assert(before@.skip(w as int) =~= before@.subrange(w as int, before.len() as int));
        } else {
            assert(before@ =~= before@.subrange(0, before.len() as int));
        }
    }
    if id.len() > 0 {
        Some(id)
    } else {
        None
    }
}

fn bare_choice_vec(t: &Vec<char>) -> (r: (bool, Vec<char>))
    ensures
        (r.0, r.1@) == bare_choice(t@),
{
    let line = last_content_line_vec(t);
    let e = token_end_vec(&line, 0, false);
    let first = clean_id_vec(&line, 0, e);
    assert(line@.subrange(0, e as int) =~= line@.take(e as int));
    let kw = chars_of("compose");
    if vec_eq(&first, &kw) {
        if e < line.len() {
            let e2 = token_end_vec(&line, e + 1, false);
            (true, clean_id_vec(&line, e + 1, e2))
        } else {
            (true, Vec::new())
        }
    } else {
        (false, first)
    }
}

/// Reads the router's reply: `<app-id> — <reason>`, `compose <a>-<b> —
/// <reason>` or a bare `none` / `<app-id>`, robust to narration run onto the
/// same line. Returns whether the app is to be composed, and its id.
pub fn parse_ama_decision(text: &str) -> (r: (bool, String))
    ensures
        (r.0, r.1@) == ama_decision_spec(text@),
{
    let t = chars_of(text);
    match compose_choice_vec(&t) {
        Some(id) => (true, string_of(&id)),
        None => match dash_choice_vec(&t) {
            Some(id) => (false, string_of(&id)),
            None => {
                let (c, id) = bare_choice_vec(&t);
                (c, string_of(&id))
            },
        },
    }
}

// ---------------------------------------------------------------------------
// Titles of composed apps
// ---------------------------------------------------------------------------

/// The first `-` at or after `k` (the length when none).
pub open spec fn dash_end(s: Seq<char>, k: int) -> int
    decreases s.len() - k,
{
    if k < 0 || k >= s.len() {
        s.len() as int
    } else if s[k] == '-' {
        k
    } else {
        dash_end(s, k + 1)
    }
}

pub proof fn lemma_dash_end(s: Seq<char>, k: int)
    requires
        0 <= k <= s.len(),
    ensures
        k <= dash_end(s, k) <= s.len(),
        forall|m: int| k <= m < dash_end(s, k) ==> s[m] != '-',
    decreases s.len() - k,
{
    if k < s.len() && s[k] != '-' {
        lemma_dash_end(s, k + 1);
    }
}

/// The words of `s[i..]` (its non-empty `-`-separated parts) with their first
/// letter upper-cased, joined by spaces; `first` says no word came before.
pub open spec fn title_from(s: Seq<char>, i: int, first: bool) -> Seq<char>
    decreases s.len() - i,
{
    if i < 0 || i >= s.len() {
        seq![]
    } else if s[i] == '-' {
        title_from(s, i + 1, first)
    } else {
        proof {
            lemma_dash_end(s, i + 1);
        }
        let e = dash_end(s, i);
        (if first {
            seq![]
        } else {
            seq![' ']
        }) + seq![ascii_upper(s[i])] + s.subrange(i + 1, e) + title_from(s, e, false)
    }
}

/// The title a composed app is listed under: `weather-activity` becomes
/// `Weather Activity`.
pub open spec fn app_title_spec(app_id: Seq<char>) -> Seq<char> {
    title_from(app_id, 0, true)
}

/// The title a composed app is listed under, derived from its id.
pub fn app_title(app_id: &str) -> (r: String)
    ensures
        r@ == app_title_spec(app_id@),
{
    let s = chars_of(app_id);
    let mut out: Vec<char> = Vec::new();
    let mut first = true;
    let mut i: usize = 0;
    while i < s.len()
        invariant
            i <= s.len(),
            app_title_spec(s@) == out@ + title_from(s@, i as int, first),
        decreases s.len() - i,
    {
        if s[i] == '-' {
            i += 1;
        } else {
            let mut e = i;
            while e < s.len() && s[e] != '-'
                invariant
                    i <= e <= s.len(),
                    dash_end(s@, i as int) == dash_end(s@, e as int),
                decreases s.len() - e,
            {
                e += 1;
            }
            let ghost before = out@;
            if !first {
                out.push(' ');
            }
            out.push(ascii_upper_exec(s[i]));
            let mut k = i + 1;
            while k < e
                invariant
                    i + 1 <= k <= e <= s.len(),
                    out@ == before + (if first {
                        Seq::<char>::empty()
                    } else {
                        seq![' ']
                    }) + seq![ascii_upper(s@[i as int])] + s@.subrange(i + 1, k as int),
                decreases e - k,
            {
                out.push(s[k]);
                k += 1;
            }
            assert(out@ + title_from(s@, e as int, false) =~= before + ((if first {
                Seq::<char>::empty()
            } else {
                seq![' ']
            }) + seq![ascii_upper(s@[i as int])] + s@.subrange(i + 1, e as int) + title_from(
                s@,
                e as int,
                false,
            )));
            first = false;
            i = e;
        }
    }
    assert(out@ + Seq::<char>::empty() =~= out@);
    string_of(&out)
}

// ---------------------------------------------------------------------------
// The shape of an app id
// ---------------------------------------------------------------------------

/// An app id: at most 40 lower-case ASCII letters, digits and `-`, not
/// starting with `-`.
pub open spec fn is_app_id(s: Seq<char>) -> bool {
    &&& s.len() <= 40
    &&& forall|k: int| 0 <= k < s.len() ==> is_slug_char(#[trigger] s[k])
    &&& s.len() > 0 ==> s[0] != '-'
}

proof fn lemma_id_chars(s: Seq<char>)
    ensures
        forall|k: int| 0 <= k < id_chars(s).len() ==> is_id_char(#[trigger] id_chars(s)[k]),
    decreases s.len(),
{
    if s.len() > 0 {
        lemma_id_chars(s.drop_last());
        let r = id_chars(s.drop_last());
        if is_id_char(s.last()) {
            assert forall|k: int| 0 <= k < id_chars(s).len() implies is_id_char(
                #[trigger] id_chars(s)[k],
            ) by {
                if k < r.len() {
                    assert(id_chars(s)[k] == r[k]);
                }
            }
        }
    }
}

/// Every token cleaned to an id is an app id.
pub proof fn lemma_clean_id(tok: Seq<char>)
    ensures
        is_app_id(clean_id(tok)),
{
    let ic = id_chars(tok);
    lemma_id_chars(tok);
    lemma_trim_dashes(ic);
    let td = trim_dashes(ic);
    assert forall|k: int| 0 <= k < td.len() implies is_id_char(#[trigger] td[k]) by {
        assert(td[k] == ic[dash_prefix_len(ic) + k]);
    }
    let low = ascii_lower_seq(td);
    assert forall|k: int| 0 <= k < low.len() implies is_slug_char(#[trigger] low[k]) by {
        assert(low[k] == crate::text::ascii_lower(td[k]));
        assert(is_id_char(td[k]));
    }
    let c = clean_id(tok);
    assert forall|k: int| 0 <= k < c.len() implies is_slug_char(#[trigger] c[k]) by {
        assert(c[k] == low[k]);
    }
    if c.len() > 0 {
        assert(c[0] == low[0]);
        assert(low[0] == crate::text::ascii_lower(td[0]));
    }
}

/// The id read from the router's reply is always an app id (at most 40
/// lower-case ASCII letters, digits and `-`, not starting with `-`), and an id
/// found after a `compose` keyword is a composed one (it holds a `-`).
pub proof fn lemma_decision_id_is_clean(text: Seq<char>)
    ensures
        is_app_id(ama_decision_spec(text).1),
        compose_choice(text) is Some ==> ama_decision_spec(text).0 && ama_decision_spec(
            text,
        ).1.contains('-'),
{
    match rfind(ascii_lower_seq(text), "compose "@) {
        Some(pos) => lemma_clean_id(text.subrange(pos + 8, token_end(text, pos + 8, true))),
        None => {},
    }
    match rfind(text, seq!['\u{2014}']) {
        Some(dash) => {
            let before = trim_end(text.take(dash));
            let seg = match last_ws_below(before, before.len() as int) {
                Some(w) => before.skip(w + 1),
                None => before,
            };
            lemma_clean_id(seg);
        },
        None => {},
    }
    let line = last_content_line(text, text.len() as int);
    let e = token_end(line, 0, false);
    lemma_clean_id(line.take(e));
    if e < line.len() {
        lemma_clean_id(line.subrange(e + 1, token_end(line, e + 1, false)));
    }
}

/// The router's standing instructions: pick the one app a request belongs
/// to and answer with one decision line (or compose a new app).
pub const AMA_SYSTEM_PROMPT: &'static str = "You are the AMA (Activity Management Agent) of an agent OS — a ROUTER and, when needed, an APP COMPOSER. You never generate UI: do NOT emit `runsplash` or any card. Your context includes the APP AGENT MEMORY manual — you do NOT follow its card-generation rules (those are for app agents), but its `framework.md` routing list and its `## Composing a NEW app (AMA composer)` section ARE yours.\n\nROUTING (the default): read the user message, pick the app whose domain it belongs to, and reply EXACTLY ONE short line: `<app-id> — <brief reason>`. The app ids and domains are the routing list in framework.md (weather, stock, news, activity, weather-activity, nav, plus any `apps/<id>/app.md` present in memory). A BARE place name → `weather`; a BARE ticker/company → `stock`; top/best/gainers/movers about the market → `stock`; headlines → `news`; nearby places / things to do → `activity`; COMPARING COUNTRIES on an economic or development measure over time — 'china gdp growth vs india', 'india vs vietnam gdp per capita', 'life expectancy japan korea', 'population of nigeria and brazil', '中国和印度的 GDP' → `chart` (a COUNTRY-level statistic over YEARS, from the World Bank; a company's share price is still `stock` and a city's weather is still `weather`); WHERE-SHOULD-I-GO across the user's SAVED cities — 'where should I go', 'compare my cities', 'which of my cities is nicest', '去哪儿好' → `city-picks` (this one is about the SET the user saved, so it needs no place name; a request naming ONE place is still `weather`, and 'what is nearby' is still `activity`); ASKING WHAT TO DO is `weather-activity`, and it does NOT need the word weather — 'what can I do in Beijing', 'what should I do today', 'anything to do this afternoon', '在北京能做什么', '今天适合干什么' → `weather-activity` (the conditions decide the answer, which is the whole point of the app; the router previously read 'no weather hinge' from the absence of the word and sent these to `activity`, which answers a different question). Asking for a LIST of places is still `activity`: 'what's nearby', 'museums in Beijing', 'parks near me', 'coffee around here'. Advice → `weather-activity`; a list → `activity`. DIRECTIONS / navigation / a route to a place — any go-there request with a travel verb ('directions to SFO', 'navigate home', 'route to the airport', 'how do I get to X', 'map to X', 'show me a map of X', '导航去北京', '怎么去外滩', '去机场怎么走') → `nav` (NOT `weather`: a bare place name stays `weather`, and 'what's nearby / things to do' stays `activity` — `nav` is specifically GOING somewhere). When routing to `nav`, ALSO parse the trip and APPEND `; from=<origin>; to=<destination>` to your decision line — split 'from A to B' (leave `from` empty when no origin is named), and QUALIFY an ambiguous place with its city/region from WORLD KNOWLEDGE so the geocoder resolves it (e.g. 'nvidia headquarters' → 'nvidia santa clara', 'apple park' → 'apple park cupertino', 'googleplex' → 'googleplex mountain view'; leave a clear street address as-is). Example line: `nav — directions; from=Saratoga High School; to=NVIDIA Santa Clara`. ANY video / music / live-stream / watching request (e.g. 'play despacito', 'lofi music', 'watch news live', '放点音乐') → `youtube`; UNIT CONVERSION — 'km to miles', 'how many miles is 42 km', 'kg to lbs', '20°C in fahrenheit', '多少英里' → `convert`; EARTHQUAKES / seismic — 'earthquakes', 'recent quakes', 'any earthquakes today?', '地震' → `quake` (UNITS ONLY: a CURRENCY request — 'usd to eur', '汇率' — needs a live rate this profile has no capability for, so reply `none` rather than routing to a card that would have to invent one); a single general app / tool / utility / game / dashboard that no other domain covers → `web`. A weather request stays `weather` EVEN IF it also names a visual style (`dark`/`light`/`minimal`/`glass`/`vibrant`/`photo`/`深色`/`简约`/`毛玻璃`) — those are STYLE modifiers for the weather card, NOT a `web` app (so `glass weather tokyo`, `dark weather`, `minimal weather shanghai` are ALL `weather`). Never call a clear single-domain request ambiguous. No tools are needed to route.\n\nMECHANICS: you output ONE decision for ONE app, and the system renders ONE card from that ONE app. There is NO 'route each separately' and NO 'two cards' — those actions do not exist. Therefore a request that asks for two domains TOGETHER (combined card, dashboard, X and Y in one view) can ONLY be served by a COMPOSED app: route to the existing composed app that covers the pair, else COMPOSE it now.\n\nCOMPOSING (when NO app in the routing list — composed ones included — covers a MULTI-domain request): follow the composer section in framework.md. Your working directory IS the app-cards `apps/` directory, so use your file tools with RELATIVE paths: write_file `<a>-<b>/app.md` (a requirements spec that MERGES the parent apps' named BLOCKS and binds data ONLY via existing sys.* helpers) and `<a>-<b>/lint.json`, then reply `compose <a>-<b> — <brief reason>`. This authoring write is sanctioned — it is the ONE exception to the manual's never-edit-memory rule. Create a NEW `<id>/` for the composed app; never modify an EXISTING app's files. If your file tools fail, reply `none` and say why.\n\nReply `none` ONLY if no domain's data bears on the message. Be terse; output only the one decision line (after any composing writes).";

/// The message that asks the router to classify a request.
pub fn ama_message(text: &str) -> (r: String)
    ensures
        r@ == AMA_SYSTEM_PROMPT@ + "\n\nUser message: "@ + text@ + "\n\nYour one-line routing decision:"@,
{
    let mut out = chars_of(AMA_SYSTEM_PROMPT);
    push_str(&mut out, "\n\nUser message: ");
    push_str(&mut out, text);
    push_str(&mut out, "\n\nYour one-line routing decision:");
    string_of(&out)
}

} // verus!
