//! Choosing how a mime bundle is shown: the richest natively renderable
//! representation is picked and prepared once (decoded, parsed) so that
//! the view can draw it every frame without further work.

use vstd::prelude::*;
use crate::ansi::{self, AnsiSpan, SpanView, spans_view, spans_of_actions, vt_actions};
use crate::text::chars_of;
use base64::Engine;

verus! {

/// The mime types that the renderer tells apart.
#[derive(Debug, Clone, Copy, PartialEq, Eq, Structural)]
pub enum MimeKind {
    Png,
    Jpeg,
    Gif,
    Svg,
    Markdown,
    Latex,
    Plain,
    Other,
}

/// One representation in a mime bundle: its kind and, for textual and
/// base64 payloads, the payload (for `Other`, its mime type).
#[derive(Debug, Clone)]
pub struct MediaEntry {
    pub kind: MimeKind,
    pub text: String,
}

pub struct EntryView {
    pub kind: MimeKind,
    pub text: Seq<char>,
}

impl View for MediaEntry {
    type V = EntryView;

    open spec fn view(&self) -> EntryView {
        EntryView { kind: self.kind, text: self.text@ }
    }
}

pub open spec fn entries_view(entries: Seq<MediaEntry>) -> Seq<EntryView> {
    entries.map_values(|e: MediaEntry| e@)
}

#[verifier::external_type_specification]
#[verifier::external_body]
pub struct ExMedia(jupyter_protocol::Media);

/// The representations held by a `jupyter_protocol::Media` bundle, in
/// bundle order, each as its kind and payload; a representation of a kind
/// the renderer does not tell apart comes as `Other` with its mime type
/// (`MediaType::mime_type`).
pub uninterp spec fn media_contents(m: jupyter_protocol::Media) -> Seq<EntryView>;

fn entry(kind: MimeKind, text: &String) -> (e: MediaEntry)
    ensures
        e@ == (EntryView { kind, text: text@ }),
{
    MediaEntry { kind, text: text.clone() }
}


/// Lists the representations of a bundle (`Media::content`), mapping each
/// `MediaType` variant to its kind and payload (`MediaType` is
/// non-exhaustive: the other variants are handed on with their mime type).
#[verifier::external_body]
pub(crate) fn media_entries(m: &jupyter_protocol::Media) -> (res: Vec<MediaEntry>)
    ensures
        entries_view(res@) == media_contents(*m),
{
    m.content.iter().map(|t| match t {
        jupyter_protocol::MediaType::Png(s) => entry(MimeKind::Png, s),
        jupyter_protocol::MediaType::Jpeg(s) => entry(MimeKind::Jpeg, s),
        jupyter_protocol::MediaType::Gif(s) => entry(MimeKind::Gif, s),
        jupyter_protocol::MediaType::Svg(s) => entry(MimeKind::Svg, s),
        jupyter_protocol::MediaType::Markdown(s) => entry(MimeKind::Markdown, s),
        jupyter_protocol::MediaType::Latex(s) => entry(MimeKind::Latex, s),
        jupyter_protocol::MediaType::Plain(s) => entry(MimeKind::Plain, s),
        other => MediaEntry { kind: MimeKind::Other, text: other.mime_type().to_owned() },
    }).collect()
}

/// Preference of each kind: images first, then SVG, markdown, LaTeX and
/// plain text; 0 means "not renderable".
pub open spec fn rank_of(kind: MimeKind) -> int {
    match kind {
        MimeKind::Png => 7,
        MimeKind::Jpeg => 6,
        MimeKind::Gif => 5,
        MimeKind::Svg => 4,
        MimeKind::Markdown => 3,
        MimeKind::Latex => 2,
        MimeKind::Plain => 1,
        MimeKind::Other => 0,
    }
}

pub fn rank(kind: MimeKind) -> (r: u8)
    ensures
        r as int == rank_of(kind),
{
    match kind {
        MimeKind::Png => 7,
        MimeKind::Jpeg => 6,
        MimeKind::Gif => 5,
        MimeKind::Svg => 4,
        MimeKind::Markdown => 3,
        MimeKind::Latex => 2,
        MimeKind::Plain => 1,
        MimeKind::Other => 0,
    }
}

/// Index of the richest representation: the last one of highest positive
/// rank (as `Iterator::max_by_key` keeps the last maximum); `None` when no
/// representation is renderable.
pub open spec fn richest_index(entries: Seq<EntryView>) -> Option<int>
    decreases entries.len(),
{
    if entries.len() == 0 {
        None
    } else {
        let prev = richest_index(entries.drop_last());
        let i = entries.len() - 1;
        let r = rank_of(entries[i].kind);
        if r > 0 && (prev is None || r >= rank_of(entries[prev->0].kind)) {
            Some(i)
        } else {
            prev
        }
    }
}

proof fn lemma_richest_in_range(entries: Seq<EntryView>)
    ensures
        richest_index(entries) matches Some(i) ==> 0 <= i < entries.len() && rank_of(entries[i].kind) > 0,
    decreases entries.len(),
{
    if entries.len() > 0 {
        lemma_richest_in_range(entries.drop_last());
        let prev = richest_index(entries.drop_last());
        if let Some(p) = prev {
            assert(entries.drop_last()[p] == entries[p]);
        }
    }
}

/// The richest representation is renderable and no other representation
/// ranks higher; when there is none, nothing in the bundle is renderable.
pub proof fn law_richest_is_maximal(entries: Seq<EntryView>)
    ensures
        richest_index(entries) matches Some(i) ==> {
            &&& 0 <= i < entries.len()
            &&& rank_of(entries[i].kind) > 0
            &&& forall|j: int| 0 <= j < entries.len() ==> rank_of(#[trigger] entries[j].kind) <= rank_of(entries[i].kind)
            &&& forall|j: int| i < j < entries.len() ==> rank_of(#[trigger] entries[j].kind) < rank_of(entries[i].kind)
        },
        richest_index(entries) is None ==> forall|j: int| 0 <= j < entries.len() ==> rank_of(#[trigger] entries[j].kind) == 0,
    decreases entries.len(),
{
    lemma_richest_in_range(entries);
    if entries.len() > 0 {
        let prev = entries.drop_last();
        law_richest_is_maximal(prev);
        lemma_richest_in_range(prev);
        assert forall|j: int| 0 <= j < prev.len() implies prev[j] == entries[j] by {}
    }
}

/// The preference order between kinds: PNG, then JPEG, then GIF, then SVG,
/// then markdown, then LaTeX, then plain text; any other kind is not
/// renderable at all.
pub proof fn law_rank_order()
    ensures
        rank_of(MimeKind::Png) > rank_of(MimeKind::Jpeg),
        rank_of(MimeKind::Jpeg) > rank_of(MimeKind::Gif),
        rank_of(MimeKind::Gif) > rank_of(MimeKind::Svg),
        rank_of(MimeKind::Svg) > rank_of(MimeKind::Markdown),
        rank_of(MimeKind::Markdown) > rank_of(MimeKind::Latex),
        rank_of(MimeKind::Latex) > rank_of(MimeKind::Plain),
        rank_of(MimeKind::Plain) > 0,
        rank_of(MimeKind::Other) == 0,
{
}

/// A bundle that holds an SVG representation and no PNG, JPEG or GIF one
/// is shown as SVG, whatever text, markdown or LaTeX it also holds: the
/// last SVG representation is prepared, as its UTF-8 bytes.
pub proof fn law_svg_over_text(entries: Seq<EntryView>)
    requires
        exists|j: int| 0 <= j < entries.len() && (#[trigger] entries[j]).kind == MimeKind::Svg,
        forall|j: int| 0 <= j < entries.len() ==> {
            let kind = (#[trigger] entries[j]).kind;
            kind != MimeKind::Png && kind != MimeKind::Jpeg && kind != MimeKind::Gif
        },
    ensures
        exists|k: int| {
            &&& 0 <= k < entries.len()
            &&& (#[trigger] entries[k]).kind == MimeKind::Svg
            &&& forall|j: int| k < j < entries.len() ==> (#[trigger] entries[j]).kind != MimeKind::Svg
            &&& prepared(entries) == RenderedView::Svg(vstd::utf8::encode_utf8(entries[k].text))
        },
{
    law_richest_is_maximal(entries);
    let w = choose|j: int| 0 <= j < entries.len() && (#[trigger] entries[j]).kind == MimeKind::Svg;
    assert(rank_of(entries[w].kind) == 4);
    match richest_index(entries) {
        Some(k) => {
            assert(rank_of(entries[k].kind) >= 4);
            assert(entries[k].kind == MimeKind::Svg);
            assert forall|j: int| k < j < entries.len() implies (#[trigger] entries[j]).kind != MimeKind::Svg by {
                assert(rank_of(entries[j].kind) < rank_of(entries[k].kind));
            }
        },
        None => {
            assert(rank_of(entries[w].kind) == 0);
        },
    }
}

fn richest(entries: &Vec<MediaEntry>) -> (res: Option<usize>)
    ensures
        match res {
            Some(i) => richest_index(entries_view(entries@)) == Some(i as int),
            None => richest_index(entries_view(entries@)) is None,
        },
{
    let ghost ev = entries_view(entries@);
    let n = entries.len();
    let mut best: Option<usize> = None;
    let mut best_rank: u8 = 0;
    let mut i: usize = 0;
    while i < n
        invariant
            n == entries@.len(),
            ev == entries_view(entries@),
            i <= n,
            match best {
                Some(b) => richest_index(ev.take(i as int)) == Some(b as int)
                    && b < i && best_rank as int == rank_of(ev[b as int].kind),
                None => richest_index(ev.take(i as int)) is None,
            },
        decreases n - i,
    {
        assert(ev.take(i + 1).drop_last() =~= ev.take(i as int));
        assert(ev.take(i + 1)[i as int] == ev[i as int]);
        if let Some(b) = best {
            assert(ev.take(i + 1)[b as int] == ev[b as int]);
        }
        let r = rank(entries[i].kind);
        if r > 0 && (best.is_none() || r >= best_rank) {
            best = Some(i);
            best_rank = r;
        }
        i = i + 1;
    }
    assert(ev.take(n as int) =~= ev);
    best
}

// ------------------------------------------------------------------------
// Base64 payloads
// ------------------------------------------------------------------------

/// Unicode `White_Space`, which `char::is_whitespace` tests.
pub open spec fn is_white_space(c: char) -> bool {
    let v = c as u32;
    (0x09 <= v <= 0x0d) || v == 0x20 || v == 0x85 || v == 0xa0 || v == 0x1680
        || (0x2000 <= v <= 0x200a) || v == 0x2028 || v == 0x2029 || v == 0x202f
        || v == 0x205f || v == 0x3000
}

/// Whether the character has the Unicode `White_Space` property (what
/// `char::is_whitespace` tests), by its code point.
fn char_is_whitespace(c: char) -> (res: bool)
    ensures
        res == is_white_space(c),
{
    let v = c as u32;
    (0x09 <= v && v <= 0x0d) || v == 0x20 || v == 0x85 || v == 0xa0 || v == 0x1680
        || (0x2000 <= v && v <= 0x200a) || v == 0x2028 || v == 0x2029 || v == 0x202f
        || v == 0x205f || v == 0x3000
}

/// What base64's standard engine (`general_purpose::STANDARD`, padded
/// alphabet) decodes from these characters; `None` where it reports an
/// error.
pub uninterp spec fn base64_standard(data: Seq<char>) -> Option<Seq<u8>>;

/// `base64::engine::general_purpose::STANDARD.decode`, its error mapped to
/// `None`.
#[verifier::external_body]
fn base64_decode(data: &str) -> (res: Option<Vec<u8>>)
    ensures
        match res {
            Some(v) => base64_standard(data@) == Some(v@),
            None => base64_standard(data@) is None,
        },
{
    base64::engine::general_purpose::STANDARD.decode(data).ok()
}

/// The characters of `s` that are not white space.
pub open spec fn strip_white_space(s: Seq<char>) -> Seq<char> {
    s.filter(|c: char| !is_white_space(c))
}

/// Decodes base64 text, ignoring white space (notebooks often wrap long
/// payloads over several lines).
pub fn decode_base64(data: &str) -> (res: Option<Vec<u8>>)
    ensures
        match res {
            Some(v) => base64_standard(strip_white_space(data@)) == Some(v@),
            None => base64_standard(strip_white_space(data@)) is None,
        },
{
    let chars = chars_of(data);
    let mut cleaned = String::new();
    let n = chars.len();
    let mut i: usize = 0;
    while i < n
        invariant
            n == chars@.len(),
            chars@ == data@,
            i <= n,
            cleaned@ == strip_white_space(data@.take(i as int)),
        decreases n - i,
    {
        reveal_with_fuel(Seq::<_>::filter, 1);
        assert(data@.take(i + 1).drop_last() =~= data@.take(i as int));
        let c = chars[i];
        if !char_is_whitespace(c) {
            crate::text::push_char(&mut cleaned, c);
        }
        i = i + 1;
    }
    assert(data@.take(n as int) =~= data@);
    base64_decode(cleaned.as_str())
}

// ------------------------------------------------------------------------
// Prepared output
// ------------------------------------------------------------------------

/// A mime bundle converted once, at insert/load time, into something the
/// view can draw without re-decoding or re-parsing.
#[derive(Debug, Clone)]
pub enum Rendered {
    /// Decoded image bytes (PNG, JPEG or GIF).
    Image(Vec<u8>),
    /// SVG markup, as UTF-8 bytes.
    Svg(Vec<u8>),
    /// Markdown source, parsed by the view layer.
    Markdown(String),
    /// Text with its ANSI styling decoded.
    Ansi(Vec<AnsiSpan>),
    /// Nothing renderable; the label says what was missing.
    Unsupported(&'static str),
}

pub enum RenderedView {
    Image(Seq<u8>),
    Svg(Seq<u8>),
    Markdown(Seq<char>),
    Ansi(Seq<SpanView>),
    Unsupported(Seq<char>),
}

impl View for Rendered {
    type V = RenderedView;

    open spec fn view(&self) -> RenderedView {
        match self {
            Rendered::Image(b) => RenderedView::Image(b@),
            Rendered::Svg(b) => RenderedView::Svg(b@),
            Rendered::Markdown(s) => RenderedView::Markdown(s@),
            Rendered::Ansi(s) => RenderedView::Ansi(spans_view(s@)),
            Rendered::Unsupported(s) => RenderedView::Unsupported(s@),
        }
    }
}

/// How a bundle is prepared: images are base64-decoded (white space
/// ignored), SVG kept as bytes, markdown kept for parsing, LaTeX and plain
/// text decoded for ANSI styling; otherwise "unsupported".
pub open spec fn prepared(entries: Seq<EntryView>) -> RenderedView {
    match richest_index(entries) {
        Some(i) => {
            let e = entries[i];
            match e.kind {
                MimeKind::Png | MimeKind::Jpeg | MimeKind::Gif => {
                    match base64_standard(strip_white_space(e.text)) {
                        Some(bytes) => RenderedView::Image(bytes),
                        None => RenderedView::Unsupported("image (invalid base64)"@),
                    }
                },
                MimeKind::Svg => RenderedView::Svg(vstd::utf8::encode_utf8(e.text)),
                MimeKind::Markdown => RenderedView::Markdown(e.text),
                MimeKind::Latex | MimeKind::Plain => RenderedView::Ansi(spans_of_actions(vt_actions(e.text))),
                MimeKind::Other => RenderedView::Unsupported("output"@),
            }
        },
        None => RenderedView::Unsupported("output"@),
    }
}

/// Prepares a bundle given as its list of representations.
pub fn prepare_entries(entries: &Vec<MediaEntry>) -> (res: Rendered)
    ensures
        res@ == prepared(entries_view(entries@)),
{
    proof {
        lemma_richest_in_range(entries_view(entries@));
    }
    match richest(entries) {
        Some(i) => {
            let e = &entries[i];
            assert(entries_view(entries@)[i as int] == e@);
            match e.kind {
                MimeKind::Png | MimeKind::Jpeg | MimeKind::Gif => {
                    match decode_base64(e.text.as_str()) {
                        Some(bytes) => Rendered::Image(bytes),
                        None => Rendered::Unsupported("image (invalid base64)"),
                    }
                },
                MimeKind::Svg => Rendered::Svg(vstd::slice::slice_to_vec(e.text.as_str().as_bytes())),
                MimeKind::Markdown => Rendered::Markdown(e.text.clone()),
                MimeKind::Latex | MimeKind::Plain => Rendered::Ansi(ansi::parse(e.text.as_str())),
                MimeKind::Other => Rendered::Unsupported("output"),
            }
        },
        None => Rendered::Unsupported("output"),
    }
}

/// Picks the richest natively renderable representation of a bundle and
/// prepares it. HTML has no native renderer; the bundle's `text/plain` is
/// used instead.
pub fn prepare(media: &jupyter_protocol::Media) -> (res: Rendered)
    ensures
        res@ == prepared(media_contents(*media)),
{
    let entries = media_entries(media);
    prepare_entries(&entries)
}

} // verus!
