//! JSON objects as the library reads and writes them: a document is its
//! top-level members, a nested object is its members, and every other value
//! is its JSON text; serde_json reads and writes the bytes.
use vstd::prelude::*;

verus! {

// ---------------------------------------------------------------------------
// Documents
// ---------------------------------------------------------------------------

/// A member of a document's top-level object: a nested object, listed as
/// its members' names and values (each value as JSON text), or any other
/// value, as JSON text.
pub enum JsonEntry {
    Object(Vec<(String, String)>),
    Other(String),
}

/// A member's value as plain text.
pub enum JsonEntryView {
    Object(Seq<(Seq<char>, Seq<char>)>),
    Other(Seq<char>),
}

pub open spec fn text_pairs(v: Seq<(String, String)>) -> Seq<(Seq<char>, Seq<char>)> {
    v.map_values(|p: (String, String)| (p.0@, p.1@))
}

impl View for JsonEntry {
    type V = JsonEntryView;

    open spec fn view(&self) -> JsonEntryView {
        match self {
            JsonEntry::Object(v) => JsonEntryView::Object(text_pairs(v@)),
            JsonEntry::Other(t) => JsonEntryView::Other(t@),
        }
    }
}

/// A JSON object: its members, in order.
pub struct JsonDoc {
    pub entries: Vec<(String, JsonEntry)>,
}

impl View for JsonDoc {
    type V = Seq<(Seq<char>, JsonEntryView)>;

    open spec fn view(&self) -> Seq<(Seq<char>, JsonEntryView)> {
        self.entries@.map_values(|e: (String, JsonEntry)| (e.0@, e.1@))
    }
}

pub open spec fn opt_doc(o: Option<JsonDoc>) -> Option<Seq<(Seq<char>, JsonEntryView)>> {
    match o {
        Some(d) => Some(d@),
        None => None,
    }
}

pub open spec fn opt_bytes(o: Option<Vec<u8>>) -> Option<Seq<u8>> {
    match o {
        Some(b) => Some(b@),
        None => None,
    }
}

/// serde_json's reading of `bytes` as a JSON object, member by member (a
/// nested object member by member, every other value as its compact JSON
/// text); `None` when the bytes are not JSON or not an object.
pub uninterp spec fn json_doc_of(bytes: Seq<u8>) -> Option<Seq<(Seq<char>, JsonEntryView)>>;

/// serde_json's pretty-printed bytes of the object `doc` describes; `None`
/// when one of its value texts is not JSON.
pub uninterp spec fn json_doc_text(doc: Seq<(Seq<char>, JsonEntryView)>) -> Option<Seq<u8>>;

/// Reads a JSON object (`serde_json::from_slice`), one member for one entry.
#[verifier::external_body]
pub(crate) fn parse_json_doc(bytes: &[u8]) -> (r: Option<JsonDoc>)
    ensures
        opt_doc(r) == json_doc_of(bytes@),
{
    match serde_json::from_slice::<serde_json::Value>(bytes) {
        Ok(serde_json::Value::Object(m)) => Some(JsonDoc { entries: m.into_iter().map(|(k, v)| match v {
            serde_json::Value::Object(o) => (k, JsonEntry::Object(o.into_iter().map(|(a, b)| (a, b.to_string())).collect())),
            other => (k, JsonEntry::Other(other.to_string())),
        }).collect() }),
        _ => None,
    }
}

/// Writes a JSON object back (`serde_json::to_vec_pretty`), one entry for
/// one member.
#[verifier::external_body]
pub(crate) fn render_json_doc(doc: &JsonDoc) -> (r: Option<Vec<u8>>)
    ensures
        opt_bytes(r) == json_doc_text(doc@),
{
    let mut m = serde_json::Map::new();
    for (k, e) in doc.entries.iter() {
        let v = match e {
            JsonEntry::Object(ps) => serde_json::Value::Object(ps.iter().map(|(a, t)| Ok((a.clone(), serde_json::from_str(t)?))).collect::<Result<_, serde_json::Error>>().ok()?),
            JsonEntry::Other(t) => serde_json::from_str(t).ok()?,
        };
        m.insert(k.clone(), v);
    }
    serde_json::to_vec_pretty(&serde_json::Value::Object(m)).ok()
}


/// serde_json's compact bytes of the object `doc` describes, on one line;
/// `None` when one of its value texts is not JSON.
pub uninterp spec fn json_line_text(doc: Seq<(Seq<char>, JsonEntryView)>) -> Option<Seq<u8>>;

/// Writes a JSON object on one line (`serde_json::to_vec`), one entry for
/// one member.
#[verifier::external_body]
pub(crate) fn render_json_line(doc: &JsonDoc) -> (r: Option<Vec<u8>>)
    ensures
        opt_bytes(r) == json_line_text(doc@),
{
    let mut m = serde_json::Map::new();
    for (k, e) in doc.entries.iter() {
        let v = match e {
            JsonEntry::Object(ps) => serde_json::Value::Object(ps.iter().map(|(a, t)| Ok((a.clone(), serde_json::from_str(t)?))).collect::<Result<_, serde_json::Error>>().ok()?),
            JsonEntry::Other(t) => serde_json::from_str(t).ok()?,
        };
        m.insert(k.clone(), v);
    }
    serde_json::to_vec(&serde_json::Value::Object(m)).ok()
}

/// The lower-case hex digit of `d` (below 16).
pub open spec fn hex_digit(d: int) -> char {
    if d < 10 {
        (48 + d) as char
    } else {
        (87 + d) as char
    }
}

/// How serde_json writes `c` inside a JSON string: `"` and `\` escaped
/// with a backslash; backspace, tab, line feed, form feed and carriage
/// return as `\b \t \n \f \r`; any other character below U+0020 as
/// `\u00xx` (lower-case hex); every other character as it is.
pub open spec fn json_escape_char(c: char) -> Seq<char> {
    if c == '"' {
        seq!['\\', '"']
    } else if c == '\\' {
        seq!['\\', '\\']
    } else if c == '\u{8}' {
        seq!['\\', 'b']
    } else if c == '\t' {
        seq!['\\', 't']
    } else if c == '\n' {
        seq!['\\', 'n']
    } else if c == '\u{c}' {
        seq!['\\', 'f']
    } else if c == '\r' {
        seq!['\\', 'r']
    } else if (c as u32) < 0x20 {
        seq!['\\', 'u', '0', '0', hex_digit((c as int) / 16), hex_digit((c as int) % 16)]
    } else {
        seq![c]
    }
}

/// The characters of `s`, each written as `json_escape_char` writes it.
pub open spec fn json_escaped(s: Seq<char>) -> Seq<char>
    decreases s.len(),
{
    if s.len() == 0 {
        seq![]
    } else {
        json_escaped(s.drop_last()) + json_escape_char(s.last())
    }
}

/// The JSON string literal serde_json writes for `s`: `s` escaped, in
/// double quotes.
pub open spec fn json_quote(s: Seq<char>) -> Seq<char> {
    seq!['"'] + json_escaped(s) + seq!['"']
}

/// `serde_json::to_string` of a string (which cannot fail for a `str`).
#[verifier::external_body]
pub(crate) fn quote_json_str(s: &str) -> (r: String)
    ensures
        r@ == json_quote(s@),
{
    serde_json::to_string(s).unwrap_or_default()
}

} // verus!
