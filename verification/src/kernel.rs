//! The embedded kernel's config: which settings the app adds before it
//! spawns the kernel, and the file it writes back. The merge only adds what
//! is absent: every other key is kept, an explicit existing value wins (an
//! operator may tune it), and a file that is not a JSON object is left
//! alone.
use vstd::prelude::*;
use crate::json::{
    json_doc_of, json_doc_text, opt_bytes, opt_doc, parse_json_doc, render_json_doc, text_pairs,
    JsonDoc, JsonEntry, JsonEntryView,
};
use crate::text::{chars_of, string_of, vec_eq};

verus! {

/// The injected-memory budget the app-cards tree needs, in tokens (the
/// tree is about 23k tokens; the kernel's default of 2500 truncates it).
pub const INJECT_BUDGET_TOKENS: u64 = 40_000;

// ---------------------------------------------------------------------------
// What the merge reads
// ---------------------------------------------------------------------------

/// The `memory` section; for an object, whether it has `max_inject_tokens`.
#[derive(Clone, Copy, Debug, PartialEq, Eq, Structural)]
pub enum MemorySection {
    Missing,
    NotObject,
    Object(bool),
}

/// The `appui` section; for an object, whether it has `sessions_in_cwd`.
#[derive(Clone, Copy, Debug, PartialEq, Eq, Structural)]
pub enum AppuiSection {
    Missing,
    NotObject,
    Object(bool),
}

/// The kernel config file as the merge reads it.
#[derive(Clone, Copy, Debug, PartialEq, Eq, Structural)]
pub enum KernelConfig {
    /// No file could be read: the merge starts from an empty object.
    Unreadable,
    /// The file is not JSON, or its root is not an object: left untouched.
    NotObject,
    Object { memory: MemorySection, appui: AppuiSection },
}

/// The position of the first member named `key`.
pub open spec fn member_from(d: Seq<(Seq<char>, JsonEntryView)>, key: Seq<char>, k: int) -> Option<int>
    decreases d.len() - k,
{
    if k < 0 || k >= d.len() {
        None
    } else if d[k].0 == key {
        Some(k)
    } else {
        member_from(d, key, k + 1)
    }
}

pub open spec fn member(d: Seq<(Seq<char>, JsonEntryView)>, key: Seq<char>) -> Option<int> {
    member_from(d, key, 0)
}

proof fn lemma_member_from(d: Seq<(Seq<char>, JsonEntryView)>, key: Seq<char>, k: int)
    ensures
        member_from(d, key, k) matches Some(i) ==> k <= i < d.len() && d[i].0 == key,
    decreases d.len() - k,
{
    if 0 <= k < d.len() && d[k].0 != key {
        lemma_member_from(d, key, k + 1);
    }
}

/// Whether the nested object's members include `key`.
pub open spec fn has_name(ps: Seq<(Seq<char>, Seq<char>)>, key: Seq<char>) -> bool {
    exists|i: int| 0 <= i < ps.len() && #[trigger] ps[i].0 == key
}

/// How the section `key` stands: missing, not an object, or an object that
/// has (or lacks) the member `inner`.
pub open spec fn section_of(d: Seq<(Seq<char>, JsonEntryView)>, key: Seq<char>, inner: Seq<char>) -> Option<Option<bool>> {
    match member(d, key) {
        None => None,
        Some(i) => match d[i].1 {
            JsonEntryView::Object(ps) => Some(Some(has_name(ps, inner))),
            JsonEntryView::Other(_) => Some(None),
        },
    }
}

pub open spec fn memory_of(d: Seq<(Seq<char>, JsonEntryView)>) -> MemorySection {
    match section_of(d, "memory"@, "max_inject_tokens"@) {
        None => MemorySection::Missing,
        Some(None) => MemorySection::NotObject,
        Some(Some(b)) => MemorySection::Object(b),
    }
}

pub open spec fn appui_of(d: Seq<(Seq<char>, JsonEntryView)>) -> AppuiSection {
    match section_of(d, "appui"@, "sessions_in_cwd"@) {
        None => AppuiSection::Missing,
        Some(None) => AppuiSection::NotObject,
        Some(Some(b)) => AppuiSection::Object(b),
    }
}

/// The config a read of the file gives: not an object when it is not one.
pub open spec fn classify_spec(doc: Option<Seq<(Seq<char>, JsonEntryView)>>) -> KernelConfig {
    match doc {
        None => KernelConfig::NotObject,
        Some(d) => KernelConfig::Object { memory: memory_of(d), appui: appui_of(d) },
    }
}

fn member_exec(doc: &JsonDoc, key: &str) -> (r: Option<usize>)
    ensures
        match r {
            Some(i) => member(doc@, key@) == Some(i as int) && i < doc@.len(),
            None => member(doc@, key@) is None,
        },
{
    let want = chars_of(key);
    let mut k: usize = 0;
    while k < doc.entries.len()
        invariant
            k <= doc.entries.len(),
            want@ == key@,
            member(doc@, key@) == member_from(doc@, key@, k as int),
        decreases doc.entries.len() - k,
    {
        let kc = chars_of(doc.entries[k].0.as_str());
        if vec_eq(&kc, &want) {
            return Some(k);
        }
        k += 1;
    }
    None
}

fn has_name_exec(ps: &Vec<(String, String)>, key: &str) -> (r: bool)
    ensures
        r == has_name(text_pairs(ps@), key@),
{
    let want = chars_of(key);
    let mut k: usize = 0;
    while k < ps.len()
        invariant
            k <= ps.len(),
            want@ == key@,
            forall|j: int| 0 <= j < k ==> #[trigger] text_pairs(ps@)[j].0 != key@,
        decreases ps.len() - k,
    {
        let kc = chars_of(ps[k].0.as_str());
        if vec_eq(&kc, &want) {
            assert(text_pairs(ps@)[k as int].0 == key@);
            return true;
        }
        k += 1;
    }
    false
}

fn section_exec(doc: &JsonDoc, key: &str, inner: &str) -> (r: Option<Option<bool>>)
    ensures
        r == section_of(doc@, key@, inner@),
{
    match member_exec(doc, key) {
        None => None,
        Some(i) => match &doc.entries[i].1 {
            JsonEntry::Object(ps) => Some(Some(has_name_exec(ps, inner))),
            JsonEntry::Other(_) => Some(None),
        },
    }
}

fn classify_doc(d: &JsonDoc) -> (r: KernelConfig)
    ensures
        r == classify_spec(Some(d@)),
{
    let memory = match section_exec(d, "memory", "max_inject_tokens") {
        None => MemorySection::Missing,
        Some(None) => MemorySection::NotObject,
        Some(Some(b)) => MemorySection::Object(b),
    };
    let appui = match section_exec(d, "appui", "sessions_in_cwd") {
        None => AppuiSection::Missing,
        Some(None) => AppuiSection::NotObject,
        Some(Some(b)) => AppuiSection::Object(b),
    };
    KernelConfig::Object { memory, appui }
}

/// How the config the document `doc` holds stands for the merge (`None`:
/// the file is not a JSON object).
pub fn classify_config(doc: Option<JsonDoc>) -> (r: KernelConfig)
    ensures
        r == classify_spec(opt_doc(doc)),
{
    match doc {
        None => KernelConfig::NotObject,
        Some(d) => classify_doc(&d),
    }
}

/// The config the file's bytes hold; `None` when no file could be read.
pub fn kernel_config_from_bytes(bytes: Option<&[u8]>) -> (r: KernelConfig)
    ensures
        r == (match bytes {
            Some(b) => classify_spec(json_doc_of(b@)),
            None => KernelConfig::Unreadable,
        }),
{
    match bytes {
        None => KernelConfig::Unreadable,
        Some(b) => classify_config(parse_json_doc(b)),
    }
}

// ---------------------------------------------------------------------------
// The edits
// ---------------------------------------------------------------------------

/// The edits the merge makes.
#[derive(Clone, Copy, Debug, PartialEq, Eq, Structural)]
pub struct ConfigEdits {
    /// Add `memory.max_inject_tokens` = `INJECT_BUDGET_TOKENS`.
    pub raise_budget: bool,
    /// Add `appui.sessions_in_cwd` = `false`.
    pub add_sessions_in_cwd: bool,
}

/// The budget is added where it is missing, with or without its section;
/// an explicit value, whatever it is, wins.
pub open spec fn raises_budget(memory: MemorySection) -> bool {
    match memory {
        MemorySection::Missing => true,
        MemorySection::NotObject => false,
        MemorySection::Object(present) => !present,
    }
}

/// `sessions_in_cwd` is added where it is missing (with or without its
/// section).
pub open spec fn adds_sessions_in_cwd(appui: AppuiSection) -> bool {
    match appui {
        AppuiSection::Missing => true,
        AppuiSection::NotObject => false,
        AppuiSection::Object(present) => !present,
    }
}

pub open spec fn config_edits_spec(config: KernelConfig) -> ConfigEdits {
    match config {
        KernelConfig::Unreadable => ConfigEdits { raise_budget: true, add_sessions_in_cwd: true },
        KernelConfig::NotObject => ConfigEdits { raise_budget: false, add_sessions_in_cwd: false },
        KernelConfig::Object { memory, appui } => ConfigEdits {
            raise_budget: raises_budget(memory),
            add_sessions_in_cwd: adds_sessions_in_cwd(appui),
        },
    }
}

/// The edits the kernel config needs before the kernel is spawned.
pub fn kernel_config_edits(config: KernelConfig) -> (r: ConfigEdits)
    ensures
        r == config_edits_spec(config),
{
    match config {
        KernelConfig::Unreadable => ConfigEdits { raise_budget: true, add_sessions_in_cwd: true },
        KernelConfig::NotObject => ConfigEdits { raise_budget: false, add_sessions_in_cwd: false },
        KernelConfig::Object { memory, appui } => {
            let raise_budget = match memory {
                MemorySection::Missing => true,
                MemorySection::NotObject => false,
                MemorySection::Object(present) => !present,
            };
            let add_sessions_in_cwd = match appui {
                AppuiSection::Missing => true,
                AppuiSection::NotObject => false,
                AppuiSection::Object(present) => !present,
            };
            ConfigEdits { raise_budget, add_sessions_in_cwd }
        },
    }
}

impl ConfigEdits {
    /// Whether the file needs writing at all.
    pub fn changes_anything(&self) -> (r: bool)
        ensures
            r == (self.raise_budget || self.add_sessions_in_cwd),
    {
        self.raise_budget || self.add_sessions_in_cwd
    }
}

/// `d` with the member `inner` (JSON text `value`) added to its section
/// `key`: a missing section is added holding just that member; a section
/// that is not an object is left as it is.
pub open spec fn add_member(
    d: Seq<(Seq<char>, JsonEntryView)>,
    key: Seq<char>,
    inner: Seq<char>,
    value: Seq<char>,
) -> Seq<(Seq<char>, JsonEntryView)> {
    match member(d, key) {
        None => d.push((key, JsonEntryView::Object(seq![(inner, value)]))),
        Some(i) => match d[i].1 {
            JsonEntryView::Object(ps) => d.update(i, (key, JsonEntryView::Object(ps.push((inner, value))))),
            JsonEntryView::Other(_) => d,
        },
    }
}

/// The document after the edits `e`: the budget `40000` and
/// `sessions_in_cwd: false` added as asked; every other member kept.
pub open spec fn apply_edits_spec(d: Seq<(Seq<char>, JsonEntryView)>, e: ConfigEdits) -> Seq<(Seq<char>, JsonEntryView)> {
    let d1 = if e.raise_budget {
        add_member(d, "memory"@, "max_inject_tokens"@, "40000"@)
    } else {
        d
    };
    if e.add_sessions_in_cwd {
        add_member(d1, "appui"@, "sessions_in_cwd"@, "false"@)
    } else {
        d1
    }
}

fn add_member_exec(doc: &mut JsonDoc, key: &str, inner: &str, value: &str)
    ensures
        final(doc)@ == add_member(old(doc)@, key@, inner@, value@),
{
    let kc = chars_of(key);
    let ic = chars_of(inner);
    let vc = chars_of(value);
    match member_exec(doc, key) {
        None => {
            let mut ps: Vec<(String, String)> = Vec::new();
            ps.push((string_of(&ic), string_of(&vc)));
            assert(text_pairs(ps@) =~= seq![(inner@, value@)]);
            doc.entries.push((string_of(&kc), JsonEntry::Object(ps)));
            assert(doc@ =~= old(doc)@.push((key@, JsonEntryView::Object(seq![(inner@, value@)]))));
        },
        Some(i) => {
            proof {
                lemma_member_from(doc@, key@, 0);
            }
            let ghost old_entry = doc.entries@[i as int];
            let (k, e) = doc.entries.remove(i);
            assert(k == old_entry.0 && e == old_entry.1);
            assert(k@ == key@);
            match e {
                JsonEntry::Object(mut ps) => {
                    let ghost before = ps@;
                    assert(old(doc)@[i as int].1 == JsonEntryView::Object(text_pairs(before)));
                    ps.push((string_of(&ic), string_of(&vc)));
                    assert(text_pairs(ps@) =~= text_pairs(before).push((inner@, value@)));
                    doc.entries.insert(i, (k, JsonEntry::Object(ps)));
                    assert(doc@ =~= old(doc)@.update(
                        i as int,
                        (key@, JsonEntryView::Object(text_pairs(before).push((inner@, value@)))),
                    ));
                },
                JsonEntry::Other(t) => {
                    doc.entries.insert(i, (k, JsonEntry::Other(t)));
                    assert(doc@ =~= old(doc)@);
                },
            }
        },
    }
}

/// Applies the edits to the document.
pub fn apply_config_edits(doc: &mut JsonDoc, e: ConfigEdits)
    ensures
        final(doc)@ == apply_edits_spec(old(doc)@, e),
{
    if e.raise_budget {
        add_member_exec(doc, "memory", "max_inject_tokens", "40000");
    }
    if e.add_sessions_in_cwd {
        add_member_exec(doc, "appui", "sessions_in_cwd", "false");
    }
}

/// The bytes the config file is rewritten with, or `None` when it is left
/// as it is: a file that is not a JSON object is left alone; otherwise
/// (starting from an empty object when there was no file) what is missing is
/// added and the file rewritten, unless nothing was missing.
pub open spec fn config_update_spec(bytes: Option<Seq<u8>>) -> Option<Seq<u8>> {
    let doc = match bytes {
        None => Some(Seq::<(Seq<char>, JsonEntryView)>::empty()),
        Some(b) => json_doc_of(b),
    };
    match doc {
        None => None,
        Some(d) => {
            let e = config_edits_spec(classify_spec(Some(d)));
            if e.raise_budget || e.add_sessions_in_cwd {
                json_doc_text(apply_edits_spec(d, e))
            } else {
                None
            }
        },
    }
}

/// The new contents of the kernel config file (`None`: nothing to write),
/// from its current bytes (`None`: it could not be read).
pub fn kernel_config_update(bytes: Option<&[u8]>) -> (r: Option<Vec<u8>>)
    ensures
        opt_bytes(r) == config_update_spec(match bytes {
            Some(b) => Some(b@),
            None => None,
        }),
{
    let doc = match bytes {
        None => {
            let d = JsonDoc { entries: Vec::new() };
            assert(d@ =~= Seq::<(Seq<char>, JsonEntryView)>::empty());
            Some(d)
        },
        Some(b) => parse_json_doc(b),
    };
    let mut d = match doc {
        None => return None,
        Some(d) => d,
    };
    let config = classify_doc(&d);
    let e = kernel_config_edits(config);
    if !e.changes_anything() {
        return None;
    }
    apply_config_edits(&mut d, e);
    render_json_doc(&d)
}

/// Law: the merge settles. Once its edits are applied, the config needs
/// none: an added key is present, and nothing else was touched.
pub proof fn lemma_config_edits_settle(memory: MemorySection, appui: AppuiSection)
    ensures
        ({
            let e = config_edits_spec(KernelConfig::Object { memory, appui });
            let memory2 = if e.raise_budget {
                MemorySection::Object(true)
            } else {
                memory
            };
            let appui2 = if e.add_sessions_in_cwd {
                AppuiSection::Object(true)
            } else {
                appui
            };
            config_edits_spec(KernelConfig::Object { memory: memory2, appui: appui2 })
                == ConfigEdits { raise_budget: false, add_sessions_in_cwd: false }
        }),
{
}

} // verus!
