//! Card composition: `Card{ use: "<name>" props: {…} on: {…} }` embeds are
//! expanded host-side by inlining the registered card's body with its props
//! bound, its own state namespaced and its emits rewritten.
use vstd::prelude::*;
use vstd::arithmetic::div_mod::{
    lemma_add_mod_noop_right, lemma_mod_bound, lemma_mod_equivalence, lemma_mod_self_0, lemma_small_mod,
};
use crate::keyed::KeyedMap;
use crate::lines::{
    lemma_strip_comments_len, strip_comments_spec, strip_comments_vec, strip_name_line_spec,
    strip_name_line_vec,
};
use crate::scan::{
    flat_map_spec, lemma_matching_brace, matching_brace_spec, matching_brace_vec, on_map_spec,
    parse_flat_map_vec, parse_on_map_vec, EmitMap, StrMap,
};
use crate::text::{
    chars_of, contains, find, find_from, find_from_exec, find_str, is_ascii_alnum,
    lemma_find_from, push_all, push_range, push_str, slice_vec, string_of, trim, trim_bounds,
    trim_start,
};
use crate::tokens::{
    namespace_spec, namespace_vec, rewrite_emits_spec, rewrite_emits_vec, subst_spec, subst_vec,
};

verus! {

/// Registered embeddable cards: `use:` name to card body.
pub type CardRegistry = KeyedMap<String>;

/// The name the built-in navigation card is registered under.
pub const NAVIGATE_CARD: &'static str = "nav.navigate";

/// The built-in registry: the navigation card, under `nav.navigate`, when
/// its body could be read; nothing otherwise.
pub fn builtin_card_registry(navigate: Option<String>) -> (r: CardRegistry)
    ensures
        r@ == (match navigate {
            Some(b) => Map::<Seq<char>, Seq<char>>::empty().insert(NAVIGATE_CARD@, b@),
            None => Map::<Seq<char>, Seq<char>>::empty(),
        }),
{
    let mut reg: CardRegistry = KeyedMap::new();
    if let Some(b) = navigate {
        reg.insert(NAVIGATE_CARD.to_string(), b);
    }
    reg
}

/// Cap on `Card{}` nesting: a card that embeds itself stops expanding here.
pub const MAX_CARD_EMBED_DEPTH: u8 = 4;

// ---------------------------------------------------------------------------
// Attributes of one embed
// ---------------------------------------------------------------------------

/// The inside of the `{ … }` block that follows the first `label` in `attrs`.
pub open spec fn extract_braced_spec(attrs: Seq<char>, label: Seq<char>) -> Option<Seq<char>> {
    match find(attrs, label) {
        None => None,
        Some(p) => match find_from(attrs, seq!['{'], p + label.len()) {
            None => None,
            Some(o) => match matching_brace_spec(attrs, o) {
                None => None,
                Some(e) => Some(attrs.subrange(o + 1, e)),
            },
        },
    }
}

pub fn extract_braced_vec(attrs: &Vec<char>, label: &str) -> (r: Option<Vec<char>>)
    ensures
        match r {
            Some(v) => extract_braced_spec(attrs@, label@) == Some(v@),
            None => extract_braced_spec(attrs@, label@) is None,
        },
{
    let rp = find_str(attrs, label, 0);
    let p = match rp {
        Some(p) => p,
        None => return None,
    };
    proof {
        lemma_find_from(attrs@, label@, 0);
        assert(rp == Some(p));
        assert(find_from(attrs@, label@, 0) == Some(p as int));
        assert(p + label@.len() <= attrs@.len());
    }
    let mut lb: Vec<char> = Vec::new();
    lb.push('{');
    assert(lb@ =~= seq!['{']);
    let lab = chars_of(label);
    assert(lab@ == label@);
    assert(p + lab@.len() <= attrs@.len());
    assert(p + lab.len() <= attrs.len());
    let ro = find_from_exec(attrs, &lb, p + lab.len());
    let o = match ro {
        Some(o) => o,
        None => return None,
    };
    proof {
        lemma_find_from(attrs@, lb@, p + lab.len());
    }
    let re = matching_brace_vec(attrs, o);
    let e = match re {
        Some(e) => e,
        None => return None,
    };
    proof {
        lemma_matching_brace(attrs@, o as int);
    }
    Some(slice_vec(attrs, o + 1, e))
}

/// The inside of the `{ … }` block that follows `label` in `attrs`
/// (string-aware brace matching).
pub fn extract_braced(attrs: &str, label: &str) -> (r: Option<String>)
    ensures
        match r {
            Some(v) => extract_braced_spec(attrs@, label@) == Some(v@),
            None => extract_braced_spec(attrs@, label@) is None,
        },
{
    let t = chars_of(attrs);
    match extract_braced_vec(&t, label) {
        Some(v) => Some(string_of(&v)),
        None => None,
    }
}

/// `s` up to its first `"`.
pub open spec fn before_quote(s: Seq<char>) -> Seq<char> {
    match find(s, seq!['"']) {
        Some(q) => s.take(q),
        None => s,
    }
}

/// The `use: "<name>"` of an embed (empty when absent).
pub open spec fn use_name(attrs: Seq<char>) -> Seq<char> {
    match find(attrs, "use:"@) {
        None => seq![],
        Some(p) => {
            let after = trim_start(attrs.skip(p + "use:"@.len()));
            let after = if after.len() > 0 && after[0] == '"' {
                after.skip(1)
            } else {
                after
            };
            before_quote(after)
        },
    }
}

fn use_name_vec(attrs: &Vec<char>) -> (r: Vec<char>)
    ensures
        r@ == use_name(attrs@),
{
    let rp = find_str(attrs, "use:", 0);
    let p = match rp {
        Some(p) => p,
        None => return Vec::new(),
    };
    proof {
        lemma_find_from(attrs@, "use:"@, 0);
        reveal_strlit("use:");
        assert(find_from(attrs@, "use:"@, 0) == Some(p as int));
        assert(p + "use:"@.len() <= attrs@.len());
        assert("use:"@.len() == 4);
        assert(p + 4 <= attrs.len());
    }
    let (lo, _hi) = crate::text::trim_bounds(attrs, p + 4, attrs.len());
    let start = if lo < attrs.len() && attrs[lo] == '"' {
        lo + 1
    } else {
        lo
    };
    proof {
        let after = trim_start(attrs@.skip(p + 4));
        assert(attrs@.skip(p + 4) =~= attrs@.subrange(p + 4, attrs.len() as int));
        assert(after =~= attrs@.subrange(lo as int, attrs.len() as int));
        if lo < attrs.len() && attrs@[lo as int] == '"' {
            assert(after.skip(1) =~= attrs@.subrange(start as int, attrs.len() as int));
        }
    }
    let mut q: Vec<char> = Vec::new();
    q.push('"');
    assert(q@ =~= seq!['"']);
    let rest = slice_vec(attrs, start, attrs.len());
    match find_from_exec(&rest, &q, 0) {
        Some(e) => {
            proof {
                lemma_find_from(rest@, q@, 0);
            }
            let r = slice_vec(&rest, 0, e);
            assert(r@ =~= rest@.take(e as int));
            r
        },
        None => rest,
    }
}

/// The inert card an unknown `use:` becomes.
pub open spec fn unknown_card(name: Seq<char>) -> Seq<char> {
    "RoundedView{width: Fill height: 40 draw_bg.color: #3a1420 Label{text: \"\u{26a0} unknown card: "@
        + name + "\" draw_text.color: #ffb4b4}}"@
}

// ---------------------------------------------------------------------------
// Expansion
// ---------------------------------------------------------------------------

pub open spec fn card_mark() -> Seq<char> {
    seq!['C', 'a', 'r', 'd', '{']
}

/// A character that continues an identifier, so `XCard{` is not an embed.
pub open spec fn is_ident_char(c: char) -> bool {
    is_ascii_alnum(c) || c == '_'
}

pub open spec fn depth_measure(depth: int) -> int {
    if depth < MAX_CARD_EMBED_DEPTH {
        MAX_CARD_EMBED_DEPTH - depth
    } else {
        0
    }
}

/// A body with its embeds expanded at nesting `depth`, instance numbers
/// allocated from `inst`: the expanded text and the next free instance.
pub open spec fn expand_spec(body: Seq<char>, depth: int, inst: int, reg: Map<Seq<char>, Seq<char>>) -> (Seq<char>, int)
    decreases depth_measure(depth), body.len() + 2,
{
    if depth >= MAX_CARD_EMBED_DEPTH || !contains(body, card_mark()) {
        (body, inst)
    } else {
        let b = strip_comments_spec(body);
        if !contains(b, card_mark()) {
            (b, inst)
        } else {
            proof {
                lemma_strip_comments_len(body);
            }
            expand_scan(b, 0, depth, inst, reg)
        }
    }
}

/// The expansion of `t[i..]`.
pub open spec fn expand_scan(t: Seq<char>, i: int, depth: int, inst: int, reg: Map<Seq<char>, Seq<char>>) -> (Seq<char>, int)
    decreases depth_measure(depth), t.len() + 1 - i,
{
    if i < 0 || i > t.len() || depth >= MAX_CARD_EMBED_DEPTH {
        (seq![], inst)
    } else {
        match find_from(t, card_mark(), i) {
            None => (t.subrange(i, t.len() as int), inst),
            Some(p) => {
                proof {
                    lemma_find_from(t, card_mark(), i);
                }
                if p > i && is_ident_char(t[p - 1]) {
                    let r = expand_scan(t, p + 5, depth, inst, reg);
                    (t.subrange(i, p + 5) + r.0, r.1)
                } else {
                    match matching_brace_spec(t, p + 4) {
                        None => (t.subrange(i, t.len() as int), inst),
                        Some(e) => {
                            proof {
                                lemma_matching_brace(t, p + 4);
                            }
                            let c = one_card(t.subrange(p + 5, e), depth, inst, reg);
                            let r = expand_scan(t, e + 1, depth, c.1, reg);
                            (t.subrange(i, p) + c.0 + r.0, r.1)
                        },
                    }
                }
            },
        }
    }
}

/// One embed's attributes expanded: the registered card inlined (instance
/// `inst`, then its own embeds at `depth + 1`), or the inert placeholder.
pub open spec fn one_card(attrs: Seq<char>, depth: int, inst: int, reg: Map<Seq<char>, Seq<char>>) -> (Seq<char>, int)
    decreases depth_measure(depth), 0int,
{
    let name = use_name(attrs);
    let props = match extract_braced_spec(attrs, "props:"@) {
        Some(b) => flat_map_spec(b),
        None => Map::empty(),
    };
    let on = match extract_braced_spec(attrs, "on:"@) {
        Some(b) => on_map_spec(b),
        None => Map::empty(),
    };
    if !reg.contains_key(trim(name)) {
        (unknown_card(name), inst)
    } else {
        let child = strip_name_line_spec(reg[trim(name)]);
        let child = namespace_spec(child, inst as nat);
        let child = subst_spec(child, "{{props."@, props);
        let child = rewrite_emits_spec(child, inst as nat, on);
        if depth + 1 >= MAX_CARD_EMBED_DEPTH {
            // `expand_spec` at this depth returns the body as it is.
            (child, next_instance(inst))
        } else {
            expand_spec(child, depth + 1, next_instance(inst), reg)
        }
    }
}

/// The instance number after `inst`: the counter is a `u32` that wraps, as
/// `+=` does in an optimised build.
pub open spec fn next_instance(inst: int) -> int {
    if inst >= u32::MAX {
        0
    } else {
        inst + 1
    }
}

// ---------------------------------------------------------------------------
// Instance numbers
// ---------------------------------------------------------------------------

/// The number of distinct values of the `u32` instance counter.
pub open spec fn instance_count() -> int {
    0x1_0000_0000
}

/// The instance numbers that expanding `body` hands out, in order: one per
/// registered card inlined, nested embeds included.
pub open spec fn expand_insts(body: Seq<char>, depth: int, inst: int, reg: Map<Seq<char>, Seq<char>>) -> Seq<int>
    decreases depth_measure(depth), body.len() + 2,
{
    if depth >= MAX_CARD_EMBED_DEPTH || !contains(body, card_mark()) {
        seq![]
    } else {
        let b = strip_comments_spec(body);
        if !contains(b, card_mark()) {
            seq![]
        } else {
            proof {
                lemma_strip_comments_len(body);
            }
            scan_insts(b, 0, depth, inst, reg)
        }
    }
}

/// The instance numbers handed out while expanding `t[i..]`.
pub open spec fn scan_insts(t: Seq<char>, i: int, depth: int, inst: int, reg: Map<Seq<char>, Seq<char>>) -> Seq<int>
    decreases depth_measure(depth), t.len() + 1 - i,
{
    if i < 0 || i > t.len() || depth >= MAX_CARD_EMBED_DEPTH {
        seq![]
    } else {
        match find_from(t, card_mark(), i) {
            None => seq![],
            Some(p) => {
                proof {
                    lemma_find_from(t, card_mark(), i);
                }
                if p > i && is_ident_char(t[p - 1]) {
                    scan_insts(t, p + 5, depth, inst, reg)
                } else {
                    match matching_brace_spec(t, p + 4) {
                        None => seq![],
                        Some(e) => {
                            proof {
                                lemma_matching_brace(t, p + 4);
                            }
                            let attrs = t.subrange(p + 5, e);
                            card_insts(attrs, depth, inst, reg) + scan_insts(
                                t,
                                e + 1,
                                depth,
                                one_card(attrs, depth, inst, reg).1,
                                reg,
                            )
                        },
                    }
                }
            },
        }
    }
}

/// The instance numbers handed out by one embed: its own, then those of the
/// embeds inside the inlined card.
pub open spec fn card_insts(attrs: Seq<char>, depth: int, inst: int, reg: Map<Seq<char>, Seq<char>>) -> Seq<int>
    decreases depth_measure(depth), 0int,
{
    let name = use_name(attrs);
    if !reg.contains_key(trim(name)) {
        seq![]
    } else if depth + 1 >= MAX_CARD_EMBED_DEPTH {
        seq![inst]
    } else {
        let props = match extract_braced_spec(attrs, "props:"@) {
            Some(b) => flat_map_spec(b),
            None => Map::empty(),
        };
        let on = match extract_braced_spec(attrs, "on:"@) {
            Some(b) => on_map_spec(b),
            None => Map::empty(),
        };
        let child = strip_name_line_spec(reg[trim(name)]);
        let child = namespace_spec(child, inst as nat);
        let child = subst_spec(child, "{{props."@, props);
        let child = rewrite_emits_spec(child, inst as nat, on);
        seq![inst] + expand_insts(child, depth + 1, next_instance(inst), reg)
    }
}

proof fn lemma_next_instance(inst: int)
    requires
        0 <= inst <= u32::MAX,
    ensures
        next_instance(inst) == (inst + 1) % instance_count(),
{
    if inst == u32::MAX {
        lemma_mod_self_0(instance_count());
    } else {
        lemma_small_mod((inst + 1) as nat, instance_count() as nat);
    }
}

/// Counting on from a counter value that is itself `inst + a` wrapped.
proof fn lemma_wrapped_shift(inst: int, a: int, j: int)
    ensures
        (((inst + a) % instance_count()) + j) % instance_count() == (inst + a + j)
            % instance_count(),
{
    lemma_add_mod_noop_right(j, inst + a, instance_count());
    assert(j + (inst + a) == inst + a + j);
}

proof fn lemma_expand_insts(body: Seq<char>, depth: int, inst: int, reg: Map<Seq<char>, Seq<char>>)
    requires
        0 <= inst <= u32::MAX,
    ensures
        forall|j: int|
            0 <= j < expand_insts(body, depth, inst, reg).len() ==> #[trigger] expand_insts(
                body,
                depth,
                inst,
                reg,
            )[j] == (inst + j) % instance_count(),
        expand_spec(body, depth, inst, reg).1 == (inst + expand_insts(body, depth, inst, reg).len())
            % instance_count(),
    decreases depth_measure(depth), body.len() + 2,
{
    lemma_small_mod(inst as nat, instance_count() as nat);
    if depth >= MAX_CARD_EMBED_DEPTH || !contains(body, card_mark()) {
    } else {
        let b = strip_comments_spec(body);
        if contains(b, card_mark()) {
            lemma_strip_comments_len(body);
            lemma_scan_insts(b, 0, depth, inst, reg);
        }
    }
}

proof fn lemma_scan_insts(t: Seq<char>, i: int, depth: int, inst: int, reg: Map<Seq<char>, Seq<char>>)
    requires
        0 <= inst <= u32::MAX,
    ensures
        forall|j: int|
            0 <= j < scan_insts(t, i, depth, inst, reg).len() ==> #[trigger] scan_insts(
                t,
                i,
                depth,
                inst,
                reg,
            )[j] == (inst + j) % instance_count(),
        expand_scan(t, i, depth, inst, reg).1 == (inst + scan_insts(t, i, depth, inst, reg).len())
            % instance_count(),
    decreases depth_measure(depth), t.len() + 1 - i,
{
    lemma_small_mod(inst as nat, instance_count() as nat);
    if i < 0 || i > t.len() || depth >= MAX_CARD_EMBED_DEPTH {
    } else {
        match find_from(t, card_mark(), i) {
            None => {},
            Some(p) => {
                lemma_find_from(t, card_mark(), i);
                if p > i && is_ident_char(t[p - 1]) {
                    lemma_scan_insts(t, p + 5, depth, inst, reg);
                } else {
                    match matching_brace_spec(t, p + 4) {
                        None => {},
                        Some(e) => {
                            lemma_matching_brace(t, p + 4);
                            let attrs = t.subrange(p + 5, e);
                            let c = one_card(attrs, depth, inst, reg);
                            let cs = card_insts(attrs, depth, inst, reg);
                            lemma_card_insts(attrs, depth, inst, reg);
                            lemma_mod_bound(inst + cs.len(), instance_count());
                            let rs = scan_insts(t, e + 1, depth, c.1, reg);
                            lemma_scan_insts(t, e + 1, depth, c.1, reg);
                            let all = scan_insts(t, i, depth, inst, reg);
                            assert(all == cs + rs);
                            assert forall|j: int| 0 <= j < all.len() implies #[trigger] all[j] == (inst
                                + j) % instance_count() by {
                                if j >= cs.len() {
                                    assert(all[j] == rs[j - cs.len()]);
                                    lemma_wrapped_shift(inst, cs.len() as int, j - cs.len());
                                }
                            }
                            lemma_wrapped_shift(inst, cs.len() as int, rs.len() as int);
                        },
                    }
                }
            },
        }
    }
}

proof fn lemma_card_insts(attrs: Seq<char>, depth: int, inst: int, reg: Map<Seq<char>, Seq<char>>)
    requires
        0 <= inst <= u32::MAX,
    ensures
        forall|j: int|
            0 <= j < card_insts(attrs, depth, inst, reg).len() ==> #[trigger] card_insts(
                attrs,
                depth,
                inst,
                reg,
            )[j] == (inst + j) % instance_count(),
        one_card(attrs, depth, inst, reg).1 == (inst + card_insts(attrs, depth, inst, reg).len())
            % instance_count(),
    decreases depth_measure(depth), 0int,
{
    lemma_small_mod(inst as nat, instance_count() as nat);
    lemma_next_instance(inst);
    let name = use_name(attrs);
    if !reg.contains_key(trim(name)) {
    } else if depth + 1 >= MAX_CARD_EMBED_DEPTH {
    } else {
        let props = match extract_braced_spec(attrs, "props:"@) {
            Some(b) => flat_map_spec(b),
            None => Map::empty(),
        };
        let on = match extract_braced_spec(attrs, "on:"@) {
            Some(b) => on_map_spec(b),
            None => Map::empty(),
        };
        let child = strip_name_line_spec(reg[trim(name)]);
        let child = namespace_spec(child, inst as nat);
        let child = subst_spec(child, "{{props."@, props);
        let child = rewrite_emits_spec(child, inst as nat, on);
        let nx = next_instance(inst);
        lemma_mod_bound(inst + 1, instance_count());
        lemma_expand_insts(child, depth + 1, nx, reg);
        let es = expand_insts(child, depth + 1, nx, reg);
        let all = card_insts(attrs, depth, inst, reg);
        assert(all == seq![inst] + es);
        assert forall|j: int| 0 <= j < all.len() implies #[trigger] all[j] == (inst + j)
            % instance_count() by {
            if j >= 1 {
                assert(all[j] == es[j - 1]);
                lemma_wrapped_shift(inst, 1, j - 1);
            }
        }
        lemma_wrapped_shift(inst, 1, es.len() as int);
    }
}

/// Law: expanding a body hands every inlined card its own instance number.
/// The numbers run on consecutively from the counter's value (wrapping as a
/// `u32`), the counter ends just past the last one handed out, and no two
/// cards share a number while fewer than 2^32 are inlined.
pub proof fn lemma_embed_instances_distinct(body: Seq<char>, depth: u8, inst: u32, reg: Map<Seq<char>, Seq<char>>)
    ensures
        forall|j: int|
            0 <= j < expand_insts(body, depth as int, inst as int, reg).len() ==> #[trigger] expand_insts(
                body,
                depth as int,
                inst as int,
                reg,
            )[j] == (inst + j) % instance_count(),
        expand_spec(body, depth as int, inst as int, reg).1 == (inst + expand_insts(
            body,
            depth as int,
            inst as int,
            reg,
        ).len()) % instance_count(),
        expand_insts(body, depth as int, inst as int, reg).len() <= instance_count() ==> forall|
            a: int,
            b: int,
        |
            0 <= a < b < expand_insts(body, depth as int, inst as int, reg).len() ==> #[trigger] expand_insts(
                body,
                depth as int,
                inst as int,
                reg,
            )[a] != #[trigger] expand_insts(body, depth as int, inst as int, reg)[b],
{
    let s = expand_insts(body, depth as int, inst as int, reg);
    lemma_expand_insts(body, depth as int, inst as int, reg);
    if s.len() <= instance_count() {
        assert forall|a: int, b: int| 0 <= a < b < s.len() implies #[trigger] s[a] != #[trigger] s[b] by {
            lemma_mod_equivalence(inst + b, inst + a, instance_count());
            lemma_small_mod((b - a) as nat, instance_count() as nat);
            assert((inst + b) - (inst + a) == b - a);
        }
    }
}

fn mark_vec() -> (r: Vec<char>)
    ensures
        r@ == card_mark(),
{
    let mut r: Vec<char> = Vec::new();
    r.push('C');
    r.push('a');
    r.push('r');
    r.push('d');
    r.push('{');
    assert(r@ =~= card_mark());
    r
}

/// Expands a body's embeds; `next_inst` threads the instance counter.
pub fn expand_vec(body: &Vec<char>, depth: u8, next_inst: &mut u32, reg: &CardRegistry) -> (res: Vec<char>)
    ensures
        res@ == expand_spec(body@, depth as int, *old(next_inst) as int, reg@).0,
        *final(next_inst) as int == expand_spec(body@, depth as int, *old(next_inst) as int, reg@).1,
    decreases depth_measure(depth as int), body@.len() + 2,
{
    let mark = mark_vec();
    if depth >= MAX_CARD_EMBED_DEPTH || find_from_exec(body, &mark, 0).is_none() {
        return slice_vec(body, 0, body.len());
    }
    let b = strip_comments_vec(body);
    if find_from_exec(&b, &mark, 0).is_none() {
        return slice_vec(&b, 0, b.len());
    }
    proof {
        lemma_strip_comments_len(body@);
    }
    expand_scan_vec(&b, depth, next_inst, reg)
}

/// Expands the embeds of `t` from the start (`expand_scan(t, 0, …)`).
fn expand_scan_vec(t: &Vec<char>, depth: u8, next_inst: &mut u32, reg: &CardRegistry) -> (res: Vec<char>)
    requires
        depth < MAX_CARD_EMBED_DEPTH,
    ensures
        res@ == expand_scan(t@, 0, depth as int, *old(next_inst) as int, reg@).0,
        *final(next_inst) as int == expand_scan(t@, 0, depth as int, *old(next_inst) as int, reg@).1,
    decreases depth_measure(depth as int), t@.len() + 1,
{
    let mark = mark_vec();
    let ghost total = expand_scan(t@, 0, depth as int, *old(next_inst) as int, reg@);
    let mut out: Vec<char> = Vec::new();
    let mut i: usize = 0;
    while i <= t.len()
        invariant
            mark@ == card_mark(),
            depth < MAX_CARD_EMBED_DEPTH,
            i <= t.len(),
            total == expand_scan(t@, 0, depth as int, *old(next_inst) as int, reg@),
            total.0 == out@ + expand_scan(t@, i as int, depth as int, *next_inst as int, reg@).0,
            total.1 == expand_scan(t@, i as int, depth as int, *next_inst as int, reg@).1,
        decreases t.len() + 1 - i,
    {
        let rp = find_from_exec(t, &mark, i);
        let p = match rp {
            None => {
                assert(find_from(t@, card_mark(), i as int) is None);
                assert(expand_scan(t@, i as int, depth as int, *next_inst as int, reg@) == (
                t@.subrange(i as int, t.len() as int), *next_inst as int));
                push_range(&mut out, t, i, t.len());
                return out;
            },
            Some(p) => p,
        };
        proof {
            lemma_find_from(t@, mark@, i as int);
        }
        if p > i && (('a' <= t[p - 1] && t[p - 1] <= 'z') || ('A' <= t[p - 1] && t[p - 1] <= 'Z')
            || ('0' <= t[p - 1] && t[p - 1] <= '9') || t[p - 1] == '_') {
            push_range(&mut out, t, i, p + 5);
            i = p + 5;
            continue;
        }
        let re = matching_brace_vec(t, p + 4);
        let e = match re {
            None => {
                push_range(&mut out, t, i, t.len());
                return out;
            },
            Some(e) => e,
        };
        proof {
            lemma_matching_brace(t@, p + 4);
        }
        push_range(&mut out, t, i, p);
        let attrs = slice_vec(t, p + 5, e);
        let card = expand_one_vec(&attrs, depth, next_inst, reg);
        push_all(&mut out, &card);
        i = e + 1;
    }
    out
}

/// Expands one embed's attributes into the inlined card (or the placeholder).
fn expand_one_vec(attrs: &Vec<char>, depth: u8, next_inst: &mut u32, reg: &CardRegistry) -> (res: Vec<char>)
    requires
        depth < u8::MAX,
    ensures
        res@ == one_card(attrs@, depth as int, *old(next_inst) as int, reg@).0,
        *final(next_inst) as int == one_card(attrs@, depth as int, *old(next_inst) as int, reg@).1,
    decreases depth_measure(depth as int), 0int,
{
    let name = use_name_vec(attrs);
    let props: StrMap = match extract_braced_vec(attrs, "props:") {
        Some(b) => parse_flat_map_vec(&b),
        None => KeyedMap::new(),
    };
    let on: EmitMap = match extract_braced_vec(attrs, "on:") {
        Some(b) => parse_on_map_vec(&b),
        None => KeyedMap::new(),
    };
    let tn = crate::text::trim_vec(&name);
    let raw = match reg.get_chars(&tn) {
        None => {
            let mut r: Vec<char> = Vec::new();
            push_str(&mut r, "RoundedView{width: Fill height: 40 draw_bg.color: #3a1420 Label{text: \"\u{26a0} unknown card: ");
            push_all(&mut r, &name);
            push_str(&mut r, "\" draw_text.color: #ffb4b4}}");
            return r;
        },
        Some(raw) => chars_of(raw.as_str()),
    };
    let inst = *next_inst;
    *next_inst = if inst == u32::MAX {
        0
    } else {
        inst + 1
    };
    let child = strip_name_line_vec(&raw);
    let child = namespace_vec(&child, inst);
    let mut open: Vec<char> = chars_of("{{props.");
    proof {
        reveal_strlit("{{props.");
    }
    let child = subst_vec(&child, &open, &props);
    let child = rewrite_emits_vec(&child, inst, &on);
    if depth + 1 >= MAX_CARD_EMBED_DEPTH {
        return child;
    }
    expand_vec(&child, depth + 1, next_inst, reg)
}

/// Expands every `Card{ use: "<name>" props: {…} on: {…} }` embed in `body`.
/// Recurses (bounded by `MAX_CARD_EMBED_DEPTH`); `next_inst` threads a
/// globally-unique instance counter across all levels.
pub fn expand_card_embeds(body: &str, depth: u8, next_inst: &mut u32, reg: &CardRegistry) -> (res: String)
    ensures
        res@ == expand_spec(body@, depth as int, *old(next_inst) as int, reg@).0,
        *final(next_inst) as int == expand_spec(body@, depth as int, *old(next_inst) as int, reg@).1,
{
    let t = chars_of(body);
    let r = expand_vec(&t, depth, next_inst, reg);
    string_of(&r)
}

/// Expands the attributes of a single `Card{ … }` into the inlined child body,
/// or an inert placeholder for an unknown or omitted `use:`.
pub fn expand_one_card(attrs: &str, depth: u8, next_inst: &mut u32, reg: &CardRegistry) -> (res: String)
    requires
        depth < u8::MAX,
    ensures
        res@ == one_card(attrs@, depth as int, *old(next_inst) as int, reg@).0,
        *final(next_inst) as int == one_card(attrs@, depth as int, *old(next_inst) as int, reg@).1,
{
    let t = chars_of(attrs);
    let r = expand_one_vec(&t, depth, next_inst, reg);
    string_of(&r)
}

} // verus!
