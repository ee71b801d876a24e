//! Which finished cards of a streaming reply are saved, each once per turn,
//! and the files a saved card is written to.
use vstd::prelude::*;
use crate::fences::{
    all_bodies_spec, extract_all_runsplash_bodies, extract_html_card_name, extract_runhtml_body,
    fenced_body_spec, forbidden_reason, forbidden_spec, html_name_spec, runsplash_body_forbidden,
};
use crate::json::{
    json_doc_text, json_line_text, json_quote, quote_json_str, render_json_doc, render_json_line,
    JsonDoc, JsonEntry, JsonEntryView,
};
use crate::scan::opt_view;
use vstd::string::StringSliceAdditionalSpecFns;
use crate::lines::{card_name_spec, extract_card_name};
use crate::text::{chars_of, contains, decimal, decimal_vec, find_str, push_str, string_of, vec_eq};

verus! {

/// A card to persist: its name, its substrate (`runsplash` or `runhtml`) and
/// its body.
pub struct CardSave {
    pub name: String,
    pub substrate: String,
    pub body: String,
}

impl View for CardSave {
    type V = (Seq<char>, Seq<char>, Seq<char>);

    open spec fn view(&self) -> (Seq<char>, Seq<char>, Seq<char>) {
        (self.name@, self.substrate@, self.body@)
    }
}

pub open spec fn saves_view(v: Seq<CardSave>) -> Seq<(Seq<char>, Seq<char>, Seq<char>)> {
    v.map_values(|c: CardSave| c@)
}

pub open spec fn keys_view(v: Seq<String>) -> Seq<Seq<char>> {
    v.map_values(|k: String| k@)
}

pub open spec fn opt_str(o: Option<&str>) -> Option<Seq<char>> {
    match o {
        Some(s) => Some(s@),
        None => None,
    }
}

/// One of `bodies` reaches for the forbidden `net` API.
pub open spec fn any_forbidden(bodies: Seq<Seq<char>>) -> bool {
    exists|k: int| 0 <= k < bodies.len() && forbidden_spec(#[trigger] bodies[k])
}

/// The save of the Splash card a reply carries (`card`): none when any
/// `runsplash` block of the reply is forbidden, when the card has no name, or
/// when that name was already saved this turn.
pub open spec fn splash_save(
    text: Seq<char>,
    card: Option<Seq<char>>,
    saved: Seq<Seq<char>>,
) -> (Seq<(Seq<char>, Seq<char>, Seq<char>)>, Seq<Seq<char>>) {
    match card {
        None => (seq![], saved),
        Some(body) => if any_forbidden(all_bodies_spec(text)) {
            (seq![], saved)
        } else {
            match card_name_spec(body) {
                None => (seq![], saved),
                Some(name) => {
                    let key = "runsplash:"@ + name;
                    if saved.contains(key) {
                        (seq![], saved)
                    } else {
                        (seq![(name, "runsplash"@, body)], saved.push(key))
                    }
                },
            }
        },
    }
}

/// The save of the reply's first `runhtml` card, when it is named and that
/// name was not saved this turn.
pub open spec fn html_save(text: Seq<char>, saved: Seq<Seq<char>>) -> (
    Seq<(Seq<char>, Seq<char>, Seq<char>)>,
    Seq<Seq<char>>,
) {
    match fenced_body_spec(text, "```runhtml"@) {
        None => (seq![], saved),
        Some(html) => match html_name_spec(html) {
            None => (seq![], saved),
            Some(name) => {
                let key = "runhtml:"@ + name;
                if saved.contains(key) {
                    (seq![], saved)
                } else {
                    (seq![(name, "runhtml"@, html)], saved.push(key))
                }
            },
        },
    }
}

/// The saves a streamed reply asks for, and the keys saved this turn after
/// them: nothing until a fence appears, then the Splash card, then the HTML
/// card.
pub open spec fn stream_saves_spec(
    text: Seq<char>,
    card: Option<Seq<char>>,
    saved: Seq<Seq<char>>,
) -> (Seq<(Seq<char>, Seq<char>, Seq<char>)>, Seq<Seq<char>>) {
    if !contains(text, "```"@) {
        (seq![], saved)
    } else {
        let first = splash_save(text, card, saved);
        let second = html_save(text, first.1);
        (first.0 + second.0, second.1)
    }
}

fn has_key(saved: &Vec<String>, key: &Vec<char>) -> (r: bool)
    ensures
        r == keys_view(saved@).contains(key@),
{
    let mut i: usize = 0;
    while i < saved.len()
        invariant
            i <= saved.len(),
            forall|k: int| 0 <= k < i ==> keys_view(saved@)[k] != key@,
        decreases saved.len() - i,
    {
        let kc = chars_of(saved[i].as_str());
        if vec_eq(&kc, key) {
            assert(keys_view(saved@)[i as int] == key@);
            return true;
        }
        i += 1;
    }
    false
}

fn any_forbidden_exec(text: &str) -> (r: bool)
    ensures
        r == any_forbidden(all_bodies_spec(text@)),
{
    let bodies = extract_all_runsplash_bodies(text);
    let mut i: usize = 0;
    while i < bodies.len()
        invariant
            i <= bodies.len(),
            bodies@.len() == all_bodies_spec(text@).len(),
            forall|k: int| 0 <= k < bodies@.len() ==> #[trigger] bodies@[k]@ == all_bodies_spec(text@)[k],
            forall|k: int| 0 <= k < i ==> !forbidden_spec(#[trigger] all_bodies_spec(text@)[k]),
        decreases bodies.len() - i,
    {
        if runsplash_body_forbidden(bodies[i].as_str()).is_some() {
            assert(forbidden_spec(all_bodies_spec(text@)[i as int]));
            return true;
        }
        i += 1;
    }
    false
}

/// Records `key` as saved and returns the save, unless it was saved already.
fn save_once(
    saved: &mut Vec<String>,
    name: Vec<char>,
    prefix: &str,
    substrate: &str,
    body: &str,
) -> (r: Option<CardSave>)
    ensures
        !keys_view(old(saved)@).contains(prefix@ + name@) ==> (r matches Some(c) && c@ == (
            name@,
            substrate@,
            body@,
        ) && keys_view(final(saved)@) == keys_view(old(saved)@).push(prefix@ + name@)),
        keys_view(old(saved)@).contains(prefix@ + name@) ==> r is None && final(saved)@ == old(
            saved,
        )@,
{
    let mut key = chars_of(prefix);
    let ghost k0 = key@;
    let mut i: usize = 0;
    while i < name.len()
        invariant
            i <= name.len(),
            key@ == k0 + name@.take(i as int),
        decreases name.len() - i,
    {
        key.push(name[i]);
        assert(name@.take(i + 1) =~= name@.take(i as int).push(name@[i as int]));
        i += 1;
    }
    assert(name@.take(name.len() as int) =~= name@);
    if has_key(saved, &key) {
        return None;
    }
    let ghost before = saved@;
    saved.push(string_of(&key));
    assert(keys_view(saved@) =~= keys_view(before).push(key@));
    Some(CardSave { name: string_of(&name), substrate: substrate.to_string(), body: body.to_string() })
}

/// Mid-stream saves: a card is complete the moment its closing fence
/// arrives, so it is saved then, once per turn (`saved` holds the keys saved
/// so far). `card` is the Splash card the reply carries; it is never saved
/// while any `runsplash` block of the reply is forbidden.
pub fn stream_card_saves(text: &str, card: Option<&str>, saved: &mut Vec<String>) -> (r: Vec<CardSave>)
    ensures
        (saves_view(r@), keys_view(final(saved)@)) == stream_saves_spec(
            text@,
            opt_str(card),
            keys_view(old(saved)@),
        ),
{
    let t = chars_of(text);
    let mut out: Vec<CardSave> = Vec::new();
    if find_str(&t, "```", 0).is_none() {
        assert(saves_view(out@) =~= Seq::<(Seq<char>, Seq<char>, Seq<char>)>::empty());
        return out;
    }
    match card {
        Some(body) => {
            if !any_forbidden_exec(text) {
                match extract_card_name(body) {
                    Some(name) => {
                        let nv = chars_of(name.as_str());
                        match save_once(saved, nv, "runsplash:", "runsplash", body) {
                            Some(c) => out.push(c),
                            None => {},
                        }
                    },
                    None => {},
                }
            }
        },
        None => {},
    }
    let ghost first = saves_view(out@);
    let ghost mid = keys_view(saved@);
    assert(first == splash_save(text@, opt_str(card), keys_view(old(saved)@)).0);
    assert(mid == splash_save(text@, opt_str(card), keys_view(old(saved)@)).1);
    match extract_runhtml_body(text) {
        Some(html) => match extract_html_card_name(html.as_str()) {
            Some(name) => {
                let nv = chars_of(name.as_str());
                match save_once(saved, nv, "runhtml:", "runhtml", html.as_str()) {
                    Some(c) => {
                        out.push(c);
                    },
                    None => {},
                }
            },
            None => {},
        },
        None => {},
    }
    assert(saves_view(out@) =~= first + html_save(text@, mid).0);
    out
}

proof fn lemma_push_keeps(s: Seq<Seq<char>>, x: Seq<char>, y: Seq<char>)
    ensures
        s.contains(y) ==> s.push(x).contains(y),
        s.push(x).contains(x),
{
    assert(s.push(x)[s.len() as int] == x);
    if s.contains(y) {
        let i = choose|i: int| 0 <= i < s.len() && s[i] == y;
        assert(s.push(x)[i] == y);
    }
}

/// The keys saved only grow: a key saved before a scan is still there after.
proof fn lemma_saves_keep_keys(text: Seq<char>, card: Option<Seq<char>>, saved: Seq<Seq<char>>, y: Seq<char>)
    ensures
        saved.contains(y) ==> splash_save(text, card, saved).1.contains(y),
        saved.contains(y) ==> html_save(text, saved).1.contains(y),
{
    match card {
        Some(body) => match card_name_spec(body) {
            Some(name) => lemma_push_keeps(saved, "runsplash:"@ + name, y),
            None => {},
        },
        None => {},
    }
    match fenced_body_spec(text, "```runhtml"@) {
        Some(html) => match html_name_spec(html) {
            Some(name) => lemma_push_keeps(saved, "runhtml:"@ + name, y),
            None => {},
        },
        None => {},
    }
}

/// Law: a card is saved once per turn. Scanning the same reply again, with
/// the keys the first scan left, saves nothing more and adds no key.
pub proof fn lemma_saved_once(text: Seq<char>, card: Option<Seq<char>>, saved: Seq<Seq<char>>)
    ensures
        ({
            let first = stream_saves_spec(text, card, saved);
            stream_saves_spec(text, card, first.1) == (Seq::<(Seq<char>, Seq<char>, Seq<char>)>::empty(), first.1)
        }),
{
    if contains(text, "```"@) {
        let a = splash_save(text, card, saved);
        let b = html_save(text, a.1);
        let k1 = b.1;
        // The Splash card's key is among the keys after the first scan.
        match card {
            Some(body) => match card_name_spec(body) {
                Some(name) => {
                    let key = "runsplash:"@ + name;
                    lemma_push_keeps(saved, key, key);
                    if !any_forbidden(all_bodies_spec(text)) {
                        assert(a.1.contains(key));
                        lemma_saves_keep_keys(text, card, a.1, key);
                        assert(k1.contains(key));
                    }
                },
                None => {},
            },
            None => {},
        }
        let a2 = splash_save(text, card, k1);
        assert(a2 == (Seq::<(Seq<char>, Seq<char>, Seq<char>)>::empty(), k1));
        // So is the HTML card's.
        match fenced_body_spec(text, "```runhtml"@) {
            Some(html) => match html_name_spec(html) {
                Some(name) => {
                    let key = "runhtml:"@ + name;
                    lemma_push_keeps(a.1, key, key);
                    assert(k1.contains(key));
                },
                None => {},
            },
            None => {},
        }
        let b2 = html_save(text, k1);
        assert(b2 == (Seq::<(Seq<char>, Seq<char>, Seq<char>)>::empty(), k1));
        assert(a2.0 + b2.0 =~= Seq::<(Seq<char>, Seq<char>, Seq<char>)>::empty());
    }
}

/// The file a saved card is written to: `<name>.html` for an HTML card,
/// `<name>.splash` otherwise.
pub fn artifact_file_name(name: &str, substrate: &str) -> (r: String)
    ensures
        r@ == name@ + (if substrate@ == "runhtml"@ {
            ".html"@
        } else {
            ".splash"@
        }),
{
    let s = chars_of(substrate);
    let mut out = chars_of(name);
    if vec_eq(&s, &chars_of("runhtml")) {
        push_str(&mut out, ".html");
    } else {
        push_str(&mut out, ".splash");
    }
    string_of(&out)
}

/// The repair turn a reply with a forbidden card asks for, once per intent:
/// the lint's reason, and the instruction to bind data only through `sys.*`
/// and `http_resource`. `None` when no block is forbidden or the repair turn
/// was already spent.
pub open spec fn security_repair_spec(text: Seq<char>, repair_attempted: bool) -> Option<Seq<char>> {
    if !repair_attempted && any_forbidden(all_bodies_spec(text)) {
        Some(
            "SECURITY: your card was rejected \u{2014} "@ + forbidden_reason()
                + ". Re-emit the card using ONLY sys.* helpers and http_resource for images; remove all net.http_request usage."@,
        )
    } else {
        None
    }
}

/// The security repair prompt for a finished reply, if it needs one.
pub fn security_repair(text: &str, repair_attempted: bool) -> (r: Option<String>)
    ensures
        opt_view(r) == security_repair_spec(text@, repair_attempted),
{
    if repair_attempted || !any_forbidden_exec(text) {
        return None;
    }
    let mut out = chars_of("SECURITY: your card was rejected \u{2014} ");
    push_str(&mut out, "card uses the low-level net API (only sys.* + http_resource are allowed)");
    push_str(
        &mut out,
        ". Re-emit the card using ONLY sys.* helpers and http_resource for images; remove all net.http_request usage.",
    );
    Some(string_of(&out))
}

// ---------------------------------------------------------------------------
// L0 refusal repairs
// ---------------------------------------------------------------------------

/// What `{:?}` writes for a string: the string in double quotes, with its
/// quotes, backslashes and non-printing characters escaped.
pub uninterp spec fn debug_quoted(s: Seq<char>) -> Seq<char>;

/// `format!("{:?}", s)` (`<str as Debug>::fmt`).
#[verifier::external_body]
fn debug_str(s: &str) -> (r: String)
    ensures
        r@ == debug_quoted(s@),
{
    format!("{:?}", s)
}

/// The pieces `ls` with `sep` between each two.
pub open spec fn join_with(ls: Seq<Seq<char>>, sep: Seq<char>) -> Seq<char>
    decreases ls.len(),
{
    if ls.len() == 0 {
        seq![]
    } else if ls.len() == 1 {
        ls[0]
    } else {
        join_with(ls.drop_last(), sep) + sep + ls.last()
    }
}

pub open spec fn string_views(v: Seq<String>) -> Seq<Seq<char>> {
    v.map_values(|x: String| x@)
}

/// The repair turn for a card the L0 language refused: its reasons as
/// a list, and, when the request is known, the request itself (quoted as
/// `Debug` writes it), so the repaired card still answers it.
pub open spec fn l0_repair_spec(why: Seq<Seq<char>>, asked: Seq<char>) -> Seq<char> {
    "Your L0 card was REFUSED by the checker. Fix exactly these and re-emit the whole card in one ```runl0 block \u{2014} no prose, no other fenced blocks:\n- "@
        + join_with(why, "\n- "@) + if asked.len() == 0 {
        seq![]
    } else {
        "\n\nThe card must still answer THIS request, with the same places, tickers and options it named: "@
            + debug_quoted(asked)
    }
}

/// The prompt of an L0 refusal's repair turn.
pub fn l0_repair_prompt(why: &Vec<String>, asked: &str) -> (r: String)
    ensures
        r@ == l0_repair_spec(string_views(why@), asked@),
{
    let mut out = chars_of(
        "Your L0 card was REFUSED by the checker. Fix exactly these and re-emit the whole card in one ```runl0 block \u{2014} no prose, no other fenced blocks:\n- ",
    );
    let ghost head = out@;
    let ghost views = string_views(why@);
    if why.len() > 0 {
        push_str(&mut out, why[0].as_str());
        assert(views.take(1) =~= seq![views[0]]);
        let mut k: usize = 1;
        while k < why.len()
            invariant
                1 <= k <= why.len(),
                views == string_views(why@),
                out@ == head + join_with(views.take(k as int), "\n- "@),
            decreases why.len() - k,
        {
            push_str(&mut out, "\n- ");
            push_str(&mut out, why[k].as_str());
            assert(views.take(k + 1).drop_last() =~= views.take(k as int));
            assert(views.take(k + 1).last() == views[k as int]);
            k += 1;
        }
        assert(views.take(why.len() as int) =~= views);
    } else {
        assert(views =~= Seq::<Seq<char>>::empty());
    }
    let a = chars_of(asked);
    if a.len() > 0 {
        push_str(
            &mut out,
            "\n\nThe card must still answer THIS request, with the same places, tickers and options it named: ",
        );
        let q = debug_str(asked);
        push_str(&mut out, q.as_str());
    }
    string_of(&out)
}

// ---------------------------------------------------------------------------
// The record of a saved card
// ---------------------------------------------------------------------------

/// `null`, or the JSON string of `s`.
pub open spec fn json_opt_str(s: Option<Seq<char>>) -> Seq<char> {
    match s {
        Some(t) => json_quote(t),
        None => "null"@,
    }
}

/// The record kept of a saved card (its `.meta.json` sidecar and its line in
/// the `index.jsonl` ledger): its name and substrate, the domain, session
/// and prompt it came from (`null` when unknown), the size of its body in
/// UTF-8 bytes, and when it was saved.
pub open spec fn card_record_spec(
    name: Seq<char>,
    substrate: Seq<char>,
    body_bytes: nat,
    domain: Option<Seq<char>>,
    prompt: Option<Seq<char>>,
    session_id: Option<Seq<char>>,
    saved_at: Seq<char>,
) -> Seq<(Seq<char>, JsonEntryView)> {
    seq![
        ("name"@, JsonEntryView::Other(json_quote(name))),
        ("substrate"@, JsonEntryView::Other(json_quote(substrate))),
        ("domain"@, JsonEntryView::Other(json_opt_str(domain))),
        ("session_id"@, JsonEntryView::Other(json_opt_str(session_id))),
        ("prompt"@, JsonEntryView::Other(json_opt_str(prompt))),
        ("bytes"@, JsonEntryView::Other(decimal(body_bytes))),
        ("saved_at"@, JsonEntryView::Other(json_quote(saved_at))),
    ]
}

fn json_opt_exec(s: Option<&str>) -> (r: String)
    ensures
        r@ == json_opt_str(opt_str(s)),
{
    match s {
        Some(t) => quote_json_str(t),
        None => string_of(&chars_of("null")),
    }
}

fn key(k: &str) -> (r: String)
    ensures
        r@ == k@,
{
    string_of(&chars_of(k))
}

/// The record of a saved card; `saved_at` is the time of the save.
pub fn card_record(
    name: &str,
    substrate: &str,
    body: &str,
    domain: Option<&str>,
    prompt: Option<&str>,
    session_id: Option<&str>,
    saved_at: &str,
) -> (r: JsonDoc)
    ensures
        r@ == card_record_spec(
            name@,
            substrate@,
            (body.spec_bytes().len() as usize) as nat,
            opt_str(domain),
            opt_str(prompt),
            opt_str(session_id),
            saved_at@,
        ),
{
    let n = body.len();
    let size = decimal_vec(n as u64);
    let mut entries: Vec<(String, JsonEntry)> = Vec::new();
    entries.push((key("name"), JsonEntry::Other(quote_json_str(name))));
    entries.push((key("substrate"), JsonEntry::Other(quote_json_str(substrate))));
    entries.push((key("domain"), JsonEntry::Other(json_opt_exec(domain))));
    entries.push((key("session_id"), JsonEntry::Other(json_opt_exec(session_id))));
    entries.push((key("prompt"), JsonEntry::Other(json_opt_exec(prompt))));
    entries.push((key("bytes"), JsonEntry::Other(string_of(&size))));
    entries.push((key("saved_at"), JsonEntry::Other(quote_json_str(saved_at))));
    let r = JsonDoc { entries };
    assert(size@ == decimal(n as nat));
    assert(r@[5] == ("bytes"@, JsonEntryView::Other(decimal(n as nat))));
    assert(r@ =~= card_record_spec(
        name@,
        substrate@,
        (body.spec_bytes().len() as usize) as nat,
        opt_str(domain),
        opt_str(prompt),
        opt_str(session_id),
        saved_at@,
    ));
    r
}

/// The files a record is written to: the pretty `.meta.json` sidecar and
/// the line (newline-terminated) appended to `index.jsonl`; `None` when the
/// record does not serialise.
pub fn card_record_files(record: &JsonDoc) -> (r: Option<(Vec<u8>, Vec<u8>)>)
    ensures
        match r {
            Some((meta, line)) => json_doc_text(record@) == Some(meta@) && (match json_line_text(record@) {
                Some(l) => line@ == l.push(10u8),
                None => false,
            }),
            None => json_doc_text(record@) is None || json_line_text(record@) is None,
        },
{
    let meta = match render_json_doc(record) {
        Some(m) => m,
        None => return None,
    };
    let mut line = match render_json_line(record) {
        Some(l) => l,
        None => return None,
    };
    line.push(10u8);
    Some((meta, line))
}

// ---------------------------------------------------------------------------
// Saved cards, newest first
// ---------------------------------------------------------------------------

/// A saved card file as read back: when it was last modified (nanoseconds
/// from the Unix epoch, negative before it), its name, and its body.
pub open spec fn saved_view(v: Seq<(i128, String, String)>) -> Seq<(i128, Seq<char>, Seq<char>)> {
    v.map_values(|e: (i128, String, String)| (e.0, e.1@, e.2@))
}

/// The first position from `k` on holding a card older than `t` (the
/// length when none is).
pub open spec fn first_older(s: Seq<(i128, Seq<char>, Seq<char>)>, t: i128, k: int) -> int
    decreases s.len() - k,
{
    if k < 0 || k >= s.len() {
        s.len() as int
    } else if s[k].0 < t {
        k
    } else {
        first_older(s, t, k + 1)
    }
}

proof fn lemma_first_older(s: Seq<(i128, Seq<char>, Seq<char>)>, t: i128, k: int)
    requires
        0 <= k <= s.len(),
    ensures
        k <= first_older(s, t, k) <= s.len(),
    decreases s.len() - k,
{
    if k < s.len() && s[k].0 >= t {
        lemma_first_older(s, t, k + 1);
    }
}

/// The named cards of `s`, newest first; cards modified at the same time
/// keep the order they were read in (a stable sort). A card without a name
/// is left out.
pub open spec fn newest_first(s: Seq<(i128, Seq<char>, Seq<char>)>) -> Seq<(i128, Seq<char>, Seq<char>)>
    decreases s.len(),
{
    if s.len() == 0 {
        seq![]
    } else {
        let r = newest_first(s.drop_last());
        let x = s.last();
        if x.1.len() == 0 {
            r
        } else {
            r.insert(first_older(r, x.0, 0), x)
        }
    }
}

/// The saved cards offered back: `(name, body)` of the `max` newest.
pub open spec fn recent_cards_spec(s: Seq<(i128, Seq<char>, Seq<char>)>, max: int) -> Seq<(Seq<char>, Seq<char>)> {
    let n = newest_first(s);
    n.take(if max < n.len() { max } else { n.len() as int }).map_values(
        |e: (i128, Seq<char>, Seq<char>)| (e.1, e.2),
    )
}

pub open spec fn pair_views(v: Seq<(String, String)>) -> Seq<(Seq<char>, Seq<char>)> {
    v.map_values(|e: (String, String)| (e.0@, e.1@))
}

/// The saved cards to offer back, from the files read (modification time,
/// name, body): `(name, body)` of the `max` newest named ones, newest first.
pub fn recent_cards(entries: &Vec<(i128, String, String)>, max: usize) -> (r: Vec<(String, String)>)
    ensures
        pair_views(r@) == recent_cards_spec(saved_view(entries@), max as int),
{
    let ghost all = saved_view(entries@);
    let mut sorted: Vec<(i128, String, String)> = Vec::new();
    let mut i: usize = 0;
    while i < entries.len()
        invariant
            i <= entries.len(),
            all == saved_view(entries@),
            saved_view(sorted@) == newest_first(all.take(i as int)),
        decreases entries.len() - i,
    {
        assert(all.take(i + 1).drop_last() =~= all.take(i as int));
        assert(all.take(i + 1).last() == all[i as int]);
        let t = entries[i].0;
        let name_chars = chars_of(entries[i].1.as_str());
        if name_chars.len() > 0 {
            let ghost cur = saved_view(sorted@);
            let mut k: usize = 0;
            while k < sorted.len() && sorted[k].0 >= t
                invariant
                    k <= sorted.len(),
                    cur == saved_view(sorted@),
                    first_older(cur, t, 0) == first_older(cur, t, k as int),
                decreases sorted.len() - k,
            {
                k += 1;
            }
            let e = (t, entries[i].1.clone(), entries[i].2.clone());
            sorted.insert(k, e);
            assert(saved_view(sorted@) =~= cur.insert(k as int, all[i as int]));
        }
        i += 1;
    }
    assert(all.take(entries.len() as int) =~= all);
    let n = if max < sorted.len() {
        max
    } else {
        sorted.len()
    };
    let ghost sv = saved_view(sorted@);
    let mut out: Vec<(String, String)> = Vec::new();
    let mut j: usize = 0;
    while j < n
        invariant
            j <= n <= sorted.len(),
            sv == saved_view(sorted@),
            pair_views(out@) == sv.take(j as int).map_values(|e: (i128, Seq<char>, Seq<char>)| (e.1, e.2)),
        decreases n - j,
    {
        let ghost before = out@;
        let a = sorted[j].1.clone();
        let b = sorted[j].2.clone();
        assert(a@ == sv[j as int].1 && b@ == sv[j as int].2);
        out.push((a, b));
        assert(pair_views(out@) =~= pair_views(before).push((sv[j as int].1, sv[j as int].2)));
        assert(sv.take(j + 1) =~= sv.take(j as int).push(sv[j as int]));
        assert(pair_views(out@) =~= sv.take(j + 1).map_values(|e: (i128, Seq<char>, Seq<char>)| (e.1, e.2)));
        j += 1;
    }
    out
}

} // verus!
