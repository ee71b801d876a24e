//! Template tokens (`{{state.k}}`, `{{props.k}}`), state namespacing, emit
//! rewriting, comment stripping and the `// name:` directive.
use vstd::prelude::*;
use crate::keyed::KeyedMap;
use crate::scan::{
    flat_map_spec, lemma_matching_brace, matching_brace_spec, matching_brace_vec,
    parse_flat_map_vec, EmitMap, StrMap,
};
use crate::text::{
    chars_of, contains, decimal, decimal_vec, find_from, find_from_exec, lemma_decimal_is_digits,
    lemma_find_from, lemma_replace_extends, lemma_replace_extends_undone, lemma_replace_keeps_followers, matches_at, push_all, push_range, push_str, replace_all,
    slice_vec, string_of, trim, trim_bounds,
};

verus! {

/// Per-card state: `{{state.<key>}}` key to value.
pub type CardState = KeyedMap<String>;

// ---------------------------------------------------------------------------
// Token substitution
// ---------------------------------------------------------------------------

/// The closing delimiter of a template token.
pub open spec fn token_close() -> Seq<char> {
    seq!['}', '}']
}

/// What a token whose key is `k` renders as: its bound value, or `"0"` when
/// unbound.
pub open spec fn bound_or_zero(m: Map<Seq<char>, Seq<char>>, k: Seq<char>) -> Seq<char> {
    if m.contains_key(k) {
        m[k]
    } else {
        seq!['0']
    }
}

/// `t[i..]` with each `<open>key}}` token replaced by `bound_or_zero(m,
/// trim(key))`. A token with no closing `}}` ends the substitution: the rest
/// is kept verbatim. Substituted values are not rescanned.
pub open spec fn subst_from(t: Seq<char>, open: Seq<char>, m: Map<Seq<char>, Seq<char>>, i: int) -> Seq<char>
    decreases t.len() + 1 - i,
{
    if i < 0 || i > t.len() || open.len() == 0 {
        seq![]
    } else {
        match find_from(t, open, i) {
            None => t.subrange(i, t.len() as int),
            Some(p) => match find_from(t, token_close(), p + open.len()) {
                None => t.subrange(i, t.len() as int),
                Some(e) => {
                    proof {
                        lemma_find_from(t, open, i);
                        lemma_find_from(t, token_close(), p + open.len());
                    }
                    t.subrange(i, p) + bound_or_zero(m, trim(t.subrange(p + open.len(), e)))
                        + subst_from(t, open, m, e + 2)
                },
            },
        }
    }
}

/// `t` with every `<open>key}}` token substituted from `m`.
pub open spec fn subst_spec(t: Seq<char>, open: Seq<char>, m: Map<Seq<char>, Seq<char>>) -> Seq<char> {
    subst_from(t, open, m, 0)
}

fn close_vec() -> (r: Vec<char>)
    ensures
        r@ == token_close(),
{
    let mut r: Vec<char> = Vec::new();
    r.push('}');
    r.push('}');
    assert(r@ =~= token_close());
    r
}

/// Substitutes every `<open>key}}` token in `t` from `m`.
pub fn subst_vec(t: &Vec<char>, open: &Vec<char>, m: &StrMap) -> (res: Vec<char>)
    requires
        open.len() > 0,
    ensures
        res@ == subst_spec(t@, open@, m@),
{
    let close = close_vec();
    let mut out: Vec<char> = Vec::new();
    let mut i: usize = 0;
    while i <= t.len()
        invariant
            open.len() > 0,
            close@ == token_close(),
            i <= t.len(),
            subst_spec(t@, open@, m@) == out@ + subst_from(t@, open@, m@, i as int),
        decreases t.len() + 1 - i,
    {
        match find_from_exec(t, open, i) {
            None => {
                push_range(&mut out, t, i, t.len());
                return out;
            },
            Some(p) => {
                proof {
                    lemma_find_from(t@, open@, i as int);
                }
                match find_from_exec(t, &close, p + open.len()) {
                    None => {
                        push_range(&mut out, t, i, t.len());
                        return out;
                    },
                    Some(e) => {
                        proof {
                            lemma_find_from(t@, close@, p + open.len());
                        }
                        push_range(&mut out, t, i, p);
                        let (lo, hi) = trim_bounds(t, p + open.len(), e);
                        let key = slice_vec(t, lo, hi);
                        match m.get_chars(&key) {
                            Some(v) => {
                                let vc = chars_of(v.as_str());
                                push_all(&mut out, &vc);
                            },
                            None => {
                                out.push('0');
                            },
                        }
                        proof {
                            assert(out@ =~= (out@.subrange(0, out@.len() - bound_or_zero(m@, key@).len())) + bound_or_zero(m@, key@));
                        }
                        i = e + 2;
                    },
                }
            },
        }
    }
    out
}

/// Substitutes `{{state.<key>}}` tokens with this card's values. Missing keys
/// render `"0"`.
pub fn substitute_state_keys(text: &str, state: &CardState) -> (res: String)
    ensures
        res@ == subst_spec(text@, "{{state."@, state@),
{
    let t = chars_of(text);
    let open = chars_of("{{state.");
    proof {
        reveal_strlit("{{state.");
    }
    let r = subst_vec(&t, &open, state);
    string_of(&r)
}

/// Substitutes `{{props.<k>}}` tokens with an embed's bound prop values; an
/// unbound prop renders `"0"`.
pub fn substitute_props(text: &str, props: &StrMap) -> (res: String)
    ensures
        res@ == subst_spec(text@, "{{props."@, props@),
{
    let t = chars_of(text);
    let open = chars_of("{{props.");
    proof {
        reveal_strlit("{{props.");
    }
    let r = subst_vec(&t, &open, props);
    string_of(&r)
}

// ---------------------------------------------------------------------------
// Namespacing a child card's own state
// ---------------------------------------------------------------------------

/// The prefix instance `inst` gives its internal state keys: `_c<inst>_`.
pub open spec fn ns_prefix(inst: nat) -> Seq<char> {
    seq!['_', 'c'] + decimal(inst) + seq!['_']
}

/// `{{state.X}}` reads and `{key: "X"` / `{key:"X"` writes of a child card
/// become `…_c<inst>_X`.
pub open spec fn namespace_spec(body: Seq<char>, inst: nat) -> Seq<char> {
    let p = ns_prefix(inst);
    let reads = replace_all(body, "{{state."@, "{{state."@ + p);
    let w1 = replace_all(reads, "{key: \""@, "{key: \""@ + p);
    replace_all(w1, "{key:\""@, "{key:\""@ + p)
}

fn ns_prefix_vec(inst: u32) -> (r: Vec<char>)
    ensures
        r@ == ns_prefix(inst as nat),
{
    let mut r: Vec<char> = Vec::new();
    r.push('_');
    r.push('c');
    let d = decimal_vec(inst as u64);
    push_all(&mut r, &d);
    r.push('_');
    assert(r@ =~= ns_prefix(inst as nat));
    r
}

/// `lit` followed by `suffix`.
fn lit_then(lit: &str, suffix: &Vec<char>) -> (r: Vec<char>)
    ensures
        r@ == lit@ + suffix@,
{
    let mut r = chars_of(lit);
    push_all(&mut r, suffix);
    r
}

pub fn namespace_vec(body: &Vec<char>, inst: u32) -> (res: Vec<char>)
    ensures
        res@ == namespace_spec(body@, inst as nat),
{
    let p = ns_prefix_vec(inst);
    proof {
        reveal_strlit("{{state.");
        reveal_strlit("{key: \"");
        reveal_strlit("{key:\"");
    }
    let a = chars_of("{{state.");
    let a2 = lit_then("{{state.", &p);
    let reads = crate::text::replace_vec(body, &a, &a2);
    let b = chars_of("{key: \"");
    let b2 = lit_then("{key: \"", &p);
    let w1 = crate::text::replace_vec(&reads, &b, &b2);
    let c = chars_of("{key:\"");
    let c2 = lit_then("{key:\"", &p);
    crate::text::replace_vec(&w1, &c, &c2)
}

/// Namespaces a child card's internal state so two embeds of the same card
/// (or the parent) never collide.
pub fn namespace_child_state(body: &str, inst: u32) -> (res: String)
    ensures
        res@ == namespace_spec(body@, inst as nat),
{
    let t = chars_of(body);
    let r = namespace_vec(&t, inst);
    string_of(&r)
}

/// Law: a namespaced child card writes only its own state. Every write key
/// left in the namespaced body, `{key:"` and `{key: "` alike, is followed by
/// the instance's prefix `_c<inst>_`, so no write of instance `inst` reaches
/// a key of the parent or of another instance. And the prefix is all that
/// changes in the writes: taking it back out after every write key gives the
/// body with only its `{{state.` reads namespaced, no write lost or doubled.
pub proof fn lemma_namespaced_writes_are_prefixed(body: Seq<char>, inst: nat)
    ensures
        replace_all(
            replace_all(namespace_spec(body, inst), "{key:\""@ + ns_prefix(inst), "{key:\""@),
            "{key: \""@ + ns_prefix(inst),
            "{key: \""@,
        ) == replace_all(body, "{{state."@, "{{state."@ + ns_prefix(inst)),
        forall|x: int|
            #[trigger] matches_at(namespace_spec(body, inst), x, "{key:\""@) ==> matches_at(
                namespace_spec(body, inst),
                x + 6,
                ns_prefix(inst),
            ),
        forall|x: int|
            #[trigger] matches_at(namespace_spec(body, inst), x, "{key: \""@) ==> matches_at(
                namespace_spec(body, inst),
                x + 7,
                ns_prefix(inst),
            ),
{
    let p = ns_prefix(inst);
    let reads = replace_all(body, "{{state."@, "{{state."@ + p);
    let spaced = "{key: \""@;
    let w1 = replace_all(reads, spaced, spaced + p);
    let from = "{key:\""@;
    reveal_strlit("{key:\"");
    reveal_strlit("{key: \"");
    assert(from =~= seq!['{', 'k', 'e', 'y', ':', '"']);
    assert(spaced =~= seq!['{', 'k', 'e', 'y', ':', ' ', '"']);
    lemma_decimal_is_digits(inst);
    assert forall|k: int| 0 <= k < p.len() implies #[trigger] p[k] != from[0] by {
        if 2 <= k < p.len() - 1 {
            assert(p[k] == decimal(inst)[k - 2]);
        }
    }
    lemma_replace_extends(reads, spaced, p);
    lemma_replace_keeps_followers(w1, from, p, spaced, p, 5);
    lemma_replace_extends(w1, from, p);
    lemma_replace_extends_undone(w1, from, p);
    lemma_replace_extends_undone(reads, spaced, p);
}

// ---------------------------------------------------------------------------
// Emit rewriting
// ---------------------------------------------------------------------------

/// What an emit with payload `fields` becomes under the handlers `on`: a
/// parent-state write of the handler's key (with its literal value, else the
/// emitted value, else `"1"`), or, unhandled, an inert namespaced write.
pub open spec fn emit_replacement(
    fields: Map<Seq<char>, Seq<char>>,
    on: Map<Seq<char>, (Seq<char>, Option<Seq<char>>)>,
    inst: nat,
) -> Seq<char> {
    let ev = if fields.contains_key("event"@) {
        fields["event"@]
    } else {
        seq![]
    };
    if on.contains_key(ev) {
        let h = on[ev];
        let val = match h.1 {
            Some(v) => v,
            None => if fields.contains_key("value"@) {
                fields["value"@]
            } else {
                seq!['1']
            },
        };
        "agent.notify(\"set\", {key: \""@ + h.0 + "\", value: \""@ + val + "\"})"@
    } else {
        "agent.notify(\"set\", {key: \"_c"@ + decimal(inst) + "_unhandled_"@ + ev
            + "\", value: \"1\"})"@
    }
}

/// `t[i..]` with each `agent.notify("emit", { … })` call rewritten.
pub open spec fn emits_from(
    t: Seq<char>,
    inst: nat,
    on: Map<Seq<char>, (Seq<char>, Option<Seq<char>>)>,
    i: int,
) -> Seq<char>
    decreases t.len() + 1 - i,
{
    if i < 0 || i > t.len() {
        seq![]
    } else {
        match find_from(t, "agent.notify(\"emit\""@, i) {
            None => t.subrange(i, t.len() as int),
            Some(p) => match find_from(t, seq!['{'], p) {
                None => t.subrange(i, t.len() as int),
                Some(b) => match matching_brace_spec(t, b) {
                    None => t.subrange(i, t.len() as int),
                    Some(be) => match find_from(t, seq![')'], be) {
                        None => t.subrange(i, t.len() as int),
                        Some(pe) => {
                            proof {
                                lemma_find_from(t, "agent.notify(\"emit\""@, i);
                                lemma_find_from(t, seq!['{'], p);
                                lemma_matching_brace(t, b);
                                lemma_find_from(t, seq![')'], be);
                            }
                            t.subrange(i, p) + emit_replacement(
                                flat_map_spec(t.subrange(b + 1, be)),
                                on,
                                inst,
                            ) + emits_from(t, inst, on, pe + 1)
                        },
                    },
                },
            },
        }
    }
}

/// A child's emits rewritten into parent-state writes per its `on:` handlers.
pub open spec fn rewrite_emits_spec(
    t: Seq<char>,
    inst: nat,
    on: Map<Seq<char>, (Seq<char>, Option<Seq<char>>)>,
) -> Seq<char> {
    if contains(t, "agent.notify(\"emit\""@) {
        emits_from(t, inst, on, 0)
    } else {
        t
    }
}

fn one_char(c: char) -> (r: Vec<char>)
    ensures
        r@ == seq![c],
{
    let mut r: Vec<char> = Vec::new();
    r.push(c);
    assert(r@ =~= seq![c]);
    r
}

fn clone_chars(s: &String) -> (r: Vec<char>)
    ensures
        r@ == s@,
{
    chars_of(s.as_str())
}

/// Appends `emit_replacement(fields, on, inst)` to `out`.
fn push_emit_replacement(out: &mut Vec<char>, fields: &StrMap, on: &EmitMap, inst: u32)
    ensures
        final(out)@ == old(out)@ + emit_replacement(fields@, on@, inst as nat),
{
    let ev: Vec<char> = match fields.get("event") {
        Some(e) => clone_chars(e),
        None => Vec::new(),
    };
    match on.get_chars(&ev) {
        Some(h) => {
            let val: Vec<char> = match &h.value {
                Some(v) => clone_chars(v),
                None => match fields.get("value") {
                    Some(v) => clone_chars(v),
                    None => one_char('1'),
                },
            };
            push_str(out, "agent.notify(\"set\", {key: \"");
            let k = clone_chars(&h.key);
            push_all(out, &k);
            push_str(out, "\", value: \"");
            push_all(out, &val);
            push_str(out, "\"})");
        },
        None => {
            push_str(out, "agent.notify(\"set\", {key: \"_c");
            let d = decimal_vec(inst as u64);
            push_all(out, &d);
            push_str(out, "_unhandled_");
            push_all(out, &ev);
            push_str(out, "\", value: \"1\"})");
        },
    }
}

pub fn rewrite_emits_vec(t: &Vec<char>, inst: u32, on: &EmitMap) -> (res: Vec<char>)
    ensures
        res@ == rewrite_emits_spec(t@, inst as nat, on@),
{
    let marker = chars_of("agent.notify(\"emit\"");
    proof {
        reveal_strlit("agent.notify(\"emit\"");
    }
    match find_from_exec(t, &marker, 0) {
        None => {
            assert(t@.subrange(0, t.len() as int) =~= t@);
            return slice_vec(t, 0, t.len());
        },
        Some(_) => {},
    }
    let lb = one_char('{');
    let rp = one_char(')');
    let mut out: Vec<char> = Vec::new();
    let mut i: usize = 0;
    while i <= t.len()
        invariant
            marker@ == "agent.notify(\"emit\""@,
            lb@ == seq!['{'],
            rp@ == seq![')'],
            i <= t.len(),
            emits_from(t@, inst as nat, on@, 0) == out@ + emits_from(t@, inst as nat, on@, i as int),
        decreases t.len() + 1 - i,
    {
        let p = match find_from_exec(t, &marker, i) {
            None => {
                push_range(&mut out, t, i, t.len());
                return out;
            },
            Some(p) => p,
        };
        proof {
            lemma_find_from(t@, marker@, i as int);
        }
        let b = match find_from_exec(t, &lb, p) {
            None => {
                push_range(&mut out, t, i, t.len());
                return out;
            },
            Some(b) => b,
        };
        proof {
            lemma_find_from(t@, lb@, p as int);
        }
        let be = match matching_brace_vec(t, b) {
            None => {
                push_range(&mut out, t, i, t.len());
                return out;
            },
            Some(be) => be,
        };
        proof {
            lemma_matching_brace(t@, b as int);
        }
        let pe = match find_from_exec(t, &rp, be) {
            None => {
                push_range(&mut out, t, i, t.len());
                return out;
            },
            Some(pe) => pe,
        };
        proof {
            lemma_find_from(t@, rp@, be as int);
        }
        push_range(&mut out, t, i, p);
        let payload = slice_vec(t, b + 1, be);
        let fields = parse_flat_map_vec(&payload);
        push_emit_replacement(&mut out, &fields, on, inst);
        i = pe + 1;
    }
    out
}

/// Rewrites a child's `agent.notify("emit", {event: "<ev>" [, value: <v>]})`
/// calls into parent-state writes per the embed's `on:` map; an emit with no
/// handler becomes an inert namespaced write.
pub fn rewrite_child_emits(body: &str, inst: u32, on: &EmitMap) -> (res: String)
    ensures
        res@ == rewrite_emits_spec(body@, inst as nat, on@),
{
    let t = chars_of(body);
    let r = rewrite_emits_vec(&t, inst, on);
    string_of(&r)
}

} // verus!
