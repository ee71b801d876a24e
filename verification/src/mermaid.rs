//! The mermaid diagram view's sources: a diagram streams in token by token,
//! so a source is rendered only once it has settled (the same text twice in
//! a row) and is not the one already shown. The drawing itself (the parsed
//! document, zoom and pan) belongs to the widget.
use vstd::prelude::*;
use crate::text::{chars_of, string_of, trim, trim_vec, utf8_len, utf8_len_below, vec_eq};

verus! {

/// The streaming cursor a reply carries while it grows.
pub open spec fn is_cursor(c: char) -> bool {
    c == '\u{258b}'
}

/// `s` without the streaming cursor.
pub open spec fn without_cursor(s: Seq<char>) -> Seq<char>
    decreases s.len(),
{
    if s.len() == 0 {
        seq![]
    } else if is_cursor(s.last()) {
        without_cursor(s.drop_last())
    } else {
        without_cursor(s.drop_last()).push(s.last())
    }
}

/// The source a diagram text stands for: the cursor dropped, trimmed.
pub open spec fn diagram_source(src: Seq<char>) -> Seq<char> {
    trim(without_cursor(src))
}

/// The source tracking of the mermaid diagram view: the source (or, while
/// one is being shown, the svg) last shown, the source waiting to settle,
/// and whether a document is loaded.
pub struct MermaidSvgView {
    pub shown: Option<String>,
    pub pending: Option<String>,
    pub has_doc: bool,
}

pub open spec fn opt_seq(o: Option<String>) -> Option<Seq<char>> {
    match o {
        Some(s) => Some(s@),
        None => None,
    }
}

fn same(o: &Option<String>, t: &Vec<char>) -> (r: bool)
    ensures
        r == (opt_seq(*o) == Some(t@)),
{
    match o {
        Some(s) => {
            let c = chars_of(s.as_str());
            vec_eq(&c, t)
        },
        None => false,
    }
}

/// What a diagram text arriving does, given what is shown, what is
/// pending and whether a document is loaded: the source to render, if any,
/// and the pending source after it.
pub open spec fn source_step(
    shown: Option<Seq<char>>,
    pending: Option<Seq<char>>,
    has_doc: bool,
    src: Seq<char>,
) -> (Option<Seq<char>>, Option<Seq<char>>) {
    let t = diagram_source(src);
    if utf8_len(t) < 8 || (shown == Some(t) && has_doc) {
        (None, pending)
    } else if pending != Some(t) {
        (None, Some(t))
    } else {
        (Some(t), pending)
    }
}

impl MermaidSvgView {
    /// Nothing shown, nothing pending.
    pub fn new() -> (v: Self)
        ensures
            v.shown is None,
            v.pending is None,
            !v.has_doc,
    {
        MermaidSvgView { shown: None, pending: None, has_doc: false }
    }

    /// A diagram text arrived. Its source (cursor dropped, trimmed) is
    /// ignored when shorter than 8 bytes or already shown; a new source is
    /// held until it arrives again; a source that arrives twice in a row is
    /// returned, to be rendered.
    pub fn set_mermaid_src(&mut self, src: &str) -> (r: Option<String>)
        ensures
            (opt_seq(r), opt_seq(final(self).pending)) == source_step(
                opt_seq(old(self).shown),
                opt_seq(old(self).pending),
                old(self).has_doc,
                src@,
            ),
            opt_seq(final(self).shown) == opt_seq(old(self).shown),
            final(self).has_doc == old(self).has_doc,
    {
        let s = chars_of(src);
        let mut kept: Vec<char> = Vec::new();
        let mut i: usize = 0;
        while i < s.len()
            invariant
                i <= s.len(),
                s@ == src@,
                kept@ == without_cursor(s@.take(i as int)),
            decreases s.len() - i,
        {
            assert(s@.take(i + 1).drop_last() =~= s@.take(i as int));
            if s[i] != '\u{258b}' {
                kept.push(s[i]);
            }
            i += 1;
        }
        assert(s@.take(s.len() as int) =~= s@);
        let t = trim_vec(&kept);
        if utf8_len_below(&t, 8) {
            return None;
        }
        if same(&self.shown, &t) && self.has_doc {
            return None;
        }
        if !same(&self.pending, &t) {
            self.pending = Some(string_of(&t));
            return None;
        }
        Some(string_of(&t))
    }

    /// A rendered svg is to be shown: `true` when it must be parsed into the
    /// document (it differs from what is shown, or no document is loaded);
    /// it is then what is shown.
    pub fn set_svg_str(&mut self, svg: &str) -> (r: bool)
        ensures
            r == !(opt_seq(old(self).shown) == Some(svg@) && old(self).has_doc),
            r ==> opt_seq(final(self).shown) == Some(svg@),
            !r ==> opt_seq(final(self).shown) == opt_seq(old(self).shown),
            opt_seq(final(self).pending) == opt_seq(old(self).pending),
            final(self).has_doc == old(self).has_doc,
    {
        let t = chars_of(svg);
        if same(&self.shown, &t) && self.has_doc {
            return false;
        }
        self.shown = Some(string_of(&t));
        true
    }

    /// The svg was parsed: whether it gave a document.
    pub fn doc_parsed(&mut self, nonempty: bool)
        ensures
            final(self).has_doc == nonempty,
            opt_seq(final(self).shown) == opt_seq(old(self).shown),
            opt_seq(final(self).pending) == opt_seq(old(self).pending),
    {
        self.has_doc = nonempty;
    }

    /// The settled source `src` was rendered and shown: it is what is shown
    /// now (so the same source is not rendered again).
    pub fn rendered(&mut self, src: &str)
        ensures
            opt_seq(final(self).shown) == Some(src@),
            opt_seq(final(self).pending) == opt_seq(old(self).pending),
            final(self).has_doc == old(self).has_doc,
    {
        let t = chars_of(src);
        self.shown = Some(string_of(&t));
    }
}

/// Law: a diagram source is rendered the second time it arrives unchanged,
/// and not the first: a new source is held back once, so a source that
/// changes with every token renders nothing until it settles.
pub proof fn lemma_settled_source_renders(
    shown: Option<Seq<char>>,
    pending: Option<Seq<char>>,
    has_doc: bool,
    src: Seq<char>,
)
    requires
        utf8_len(diagram_source(src)) >= 8,
        !(shown == Some(diagram_source(src)) && has_doc),
    ensures
        ({
            let first = source_step(shown, pending, has_doc, src);
            &&& pending != Some(diagram_source(src)) ==> first.0 is None
            &&& source_step(shown, first.1, has_doc, src).0 == Some(diagram_source(src))
        }),
{
}

} // verus!
