//! Decoding of ANSI/SGR escape sequences (coloured tracebacks, stream
//! output) into styled spans.
//!
//! The escape-sequence grammar itself is recognised by `anstyle_parse`'s
//! virtual-terminal state machine; this module records the actions that the
//! machine reports and turns them into spans: printable characters are
//! collected, SGR sequences (`CSI ... m`) change the foreground colour and
//! weight, and every other escape sequence is dropped.

use vstd::prelude::*;
use crate::text::{concat_all, lemma_concat_all_push, push_char};

verus! {

// ------------------------------------------------------------------------
// Colours
// ------------------------------------------------------------------------

/// An 8-bit-per-channel RGB colour.
#[derive(Debug, Clone, Copy, PartialEq, Eq, Structural)]
pub struct Rgb {
    pub r: u8,
    pub g: u8,
    pub b: u8,
}

pub open spec fn rgb_of(r: int, g: int, b: int) -> Rgb {
    Rgb { r: r as u8, g: g as u8, b: b as u8 }
}

/// The sixteen-colour palette (loosely JupyterLab's terminal colours):
/// `index` 0..=7, normal or bright; anything else is the normal white.
pub open spec fn basic_rgb(index: int, bright: bool) -> Rgb {
    if !bright {
        if index == 0 { rgb_of(0x3e, 0x42, 0x4b) }
        else if index == 1 { rgb_of(0xe7, 0x5c, 0x58) }
        else if index == 2 { rgb_of(0x00, 0xa2, 0x50) }
        else if index == 3 { rgb_of(0xdd, 0xb6, 0x2b) }
        else if index == 4 { rgb_of(0x20, 0x8f, 0xfb) }
        else if index == 5 { rgb_of(0xd1, 0x60, 0xc4) }
        else if index == 6 { rgb_of(0x60, 0xc6, 0xc8) }
        else if index == 7 { rgb_of(0xc5, 0xc1, 0xb4) }
        else { rgb_of(0xc5, 0xc1, 0xb4) }
    } else {
        if index == 0 { rgb_of(0x68, 0x6a, 0x66) }
        else if index == 1 { rgb_of(0xff, 0x6e, 0x67) }
        else if index == 2 { rgb_of(0x5a, 0xf7, 0x8e) }
        else if index == 3 { rgb_of(0xf4, 0xf9, 0x9d) }
        else if index == 4 { rgb_of(0x57, 0xc7, 0xff) }
        else if index == 5 { rgb_of(0xff, 0x6a, 0xc1) }
        else if index == 6 { rgb_of(0x9a, 0xed, 0xfe) }
        else if index == 7 { rgb_of(0xf1, 0xf1, 0xf0) }
        else { rgb_of(0xc5, 0xc1, 0xb4) }
    }
}

/// One channel of the 6x6x6 colour cube.
pub open spec fn cube_level(v: int) -> int {
    if v == 0 { 0 } else { 55 + v * 40 }
}

/// The xterm 256-colour palette: the sixteen basic colours, the 6x6x6
/// cube, a 24-step grey ramp; out-of-range indices are white.
pub open spec fn indexed_rgb(index: int) -> Rgb {
    if 0 <= index <= 7 {
        basic_rgb(index, false)
    } else if 8 <= index <= 15 {
        basic_rgb(index - 8, true)
    } else if 16 <= index <= 231 {
        let i = index - 16;
        rgb_of(cube_level(i / 36), cube_level((i % 36) / 6), cube_level(i % 6))
    } else if 232 <= index <= 255 {
        let v = 8 + (index - 232) * 10;
        rgb_of(v, v, v)
    } else {
        rgb_of(255, 255, 255)
    }
}

/// A truecolor triple; each component keeps its low eight bits.
pub open spec fn truecolor(r: u16, g: u16, b: u16) -> Rgb {
    Rgb { r: r as u8, g: g as u8, b: b as u8 }
}

/// Palette lookup for the basic colours.
pub fn basic_color(index: u16, bright: bool) -> (c: Rgb)
    ensures
        c == basic_rgb(index as int, bright),
{
    let (r, g, b): (u8, u8, u8) = if !bright {
        match index {
            0 => (0x3e, 0x42, 0x4b),
            1 => (0xe7, 0x5c, 0x58),
            2 => (0x00, 0xa2, 0x50),
            3 => (0xdd, 0xb6, 0x2b),
            4 => (0x20, 0x8f, 0xfb),
            5 => (0xd1, 0x60, 0xc4),
            6 => (0x60, 0xc6, 0xc8),
            7 => (0xc5, 0xc1, 0xb4),
            _ => (0xc5, 0xc1, 0xb4),
        }
    } else {
        match index {
            0 => (0x68, 0x6a, 0x66),
            1 => (0xff, 0x6e, 0x67),
            2 => (0x5a, 0xf7, 0x8e),
            3 => (0xf4, 0xf9, 0x9d),
            4 => (0x57, 0xc7, 0xff),
            5 => (0xff, 0x6a, 0xc1),
            6 => (0x9a, 0xed, 0xfe),
            7 => (0xf1, 0xf1, 0xf0),
            _ => (0xc5, 0xc1, 0xb4),
        }
    };
    Rgb { r, g, b }
}

fn cube(v: u16) -> (res: u8)
    requires
        v <= 5,
    ensures
        res as int == cube_level(v as int),
{
    if v == 0 {
        0
    } else {
        (55 + v * 40) as u8
    }
}

/// Lookup in the xterm 256-colour palette.
pub fn indexed_color(index: u16) -> (c: Rgb)
    ensures
        c == indexed_rgb(index as int),
{
    if index <= 7 {
        basic_color(index, false)
    } else if index <= 15 {
        basic_color(index - 8, true)
    } else if index <= 231 {
        let i = index - 16;
        let r = cube(i / 36);
        let g = cube((i % 36) / 6);
        let b = cube(i % 6);
        Rgb { r, g, b }
    } else if index <= 255 {
        let v = (8 + (index - 232) * 10) as u8;
        Rgb { r: v, g: v, b: v }
    } else {
        Rgb { r: 255, g: 255, b: 255 }
    }
}

/// A truecolor triple, each component truncated to eight bits.
pub fn rgb(r: u16, g: u16, b: u16) -> (c: Rgb)
    ensures
        c == truecolor(r, g, b),
{
    Rgb { r: r as u8, g: g as u8, b: b as u8 }
}

// ------------------------------------------------------------------------
// Spans
// ------------------------------------------------------------------------

/// A run of text drawn with one style.
#[derive(Debug, Clone, PartialEq)]
pub struct AnsiSpan {
    pub text: String,
    pub color: Option<Rgb>,
    pub bold: bool,
}

/// The mathematical content of a span.
pub struct SpanView {
    pub text: Seq<char>,
    pub color: Option<Rgb>,
    pub bold: bool,
}

impl View for AnsiSpan {
    type V = SpanView;

    open spec fn view(&self) -> SpanView {
        SpanView { text: self.text@, color: self.color, bold: self.bold }
    }
}

pub open spec fn spans_view(spans: Seq<AnsiSpan>) -> Seq<SpanView> {
    spans.map_values(|s: AnsiSpan| s@)
}

// ------------------------------------------------------------------------
// Terminal actions
// ------------------------------------------------------------------------

/// An action reported by the terminal state machine that the span
/// collector acts upon.
#[derive(Debug, Clone)]
pub enum VtEvent {
    /// A printable character.
    Print(char),
    /// A C0/C1 control byte.
    Execute(u8),
    /// A complete CSI sequence: its parameters (each with its
    /// sub-parameters), whether it overflowed, and its final byte.
    Csi { params: Vec<Vec<u16>>, ignore: bool, action: u8 },
}

/// The mathematical content of a [`VtEvent`].
pub enum VtAct {
    Print(char),
    Execute(u8),
    Csi(Seq<Seq<u16>>, bool, u8),
}

pub open spec fn groups_view(groups: Seq<Vec<u16>>) -> Seq<Seq<u16>> {
    groups.map_values(|g: Vec<u16>| g@)
}

impl View for VtEvent {
    type V = VtAct;

    open spec fn view(&self) -> VtAct {
        match self {
            VtEvent::Print(c) => VtAct::Print(*c),
            VtEvent::Execute(b) => VtAct::Execute(*b),
            VtEvent::Csi { params, ignore, action } => VtAct::Csi(
                groups_view(params@),
                *ignore,
                *action,
            ),
        }
    }
}

pub open spec fn events_view(events: Seq<VtEvent>) -> Seq<VtAct> {
    events.map_values(|e: VtEvent| e@)
}

#[verifier::external_type_specification]
#[verifier::external_body]
pub struct ExParams(anstyle_parse::Params);

/// The parameters of a CSI sequence as `anstyle_parse` holds them: one
/// group per parameter, each with its colon-separated sub-parameters.
pub uninterp spec fn params_contents(p: anstyle_parse::Params) -> Seq<Seq<u16>>;

/// The actions that `anstyle_parse::Parser` reports (through
/// `print`, `execute` and `csi_dispatch`) while it is fed the UTF-8
/// bytes of `input` one by one, in the order it reports them.
pub uninterp spec fn vt_actions(input: Seq<char>) -> Seq<VtAct>;

/// Copies a CSI parameter list out of `anstyle_parse::Params` (through
/// `Params::iter`), one vector per parameter group, in order.
#[verifier::external_body]
fn params_groups(params: &anstyle_parse::Params) -> (res: Vec<Vec<u16>>)
    ensures
        groups_view(res@) == params_contents(*params),
{
    params.iter().map(|p| p.to_vec()).collect()
}

/// Records the actions of the terminal state machine.
pub struct EventLog {
    pub events: Vec<VtEvent>,
}

impl anstyle_parse::Perform for EventLog {
    fn print(&mut self, c: char)
        ensures
            events_view(final(self).events@) == events_view(old(self).events@).push(VtAct::Print(c)),
    {
        self.events.push(VtEvent::Print(c));
        proof {
            assert(events_view(self.events@) =~= events_view(old(self).events@).push(VtAct::Print(c)));
        }
    }

    fn execute(&mut self, byte: u8)
        ensures
            events_view(final(self).events@) == events_view(old(self).events@).push(VtAct::Execute(byte)),
    {
        self.events.push(VtEvent::Execute(byte));
        proof {
            assert(events_view(self.events@) =~= events_view(old(self).events@).push(VtAct::Execute(byte)));
        }
    }

    fn csi_dispatch(
        &mut self,
        params: &anstyle_parse::Params,
        _intermediates: &[u8],
        ignore: bool,
        action: u8,
    )
        ensures
            events_view(final(self).events@) == events_view(old(self).events@).push(
                VtAct::Csi(params_contents(*params), ignore, action),
            ),
    {
        let groups = params_groups(params);
        self.events.push(VtEvent::Csi { params: groups, ignore, action });
        proof {
            assert(events_view(self.events@) =~= events_view(old(self).events@).push(
                VtAct::Csi(params_contents(*params), ignore, action),
            ));
        }
    }
}

/// Text without escape or control characters: every character is a
/// newline, a tab, or at least U+0020.
pub open spec fn plain_text(s: Seq<char>) -> bool {
    forall|k: int| 0 <= k < s.len() ==> (#[trigger] s[k]) == '\n' || s[k] == '\t' || s[k] as u32 >= 0x20
}

/// What the parser reports for one character of plain text.
pub open spec fn plain_action(c: char) -> VtAct {
    if c == '\n' {
        VtAct::Execute(10)
    } else if c == '\t' {
        VtAct::Execute(9)
    } else {
        VtAct::Print(c)
    }
}

pub open spec fn plain_actions(s: Seq<char>) -> Seq<VtAct> {
    s.map_values(|c: char| plain_action(c))
}

/// Runs `anstyle_parse::Parser::advance` over the bytes of `input` and
/// returns what it reported: the parser's action sequence for these
/// characters (a function of the input alone). For plain text the source's
/// ground-state table is short enough to state: a fresh parser stays in its
/// ground state, prints each character (bytes 0x20-0x7F directly, longer
/// UTF-8 sequences once decoded) and executes newlines and tabs.
#[verifier::external_body]
fn vt_events(input: &str) -> (res: Vec<VtEvent>)
    ensures
        events_view(res@) == vt_actions(input@),
        plain_text(input@) ==> events_view(res@) == plain_actions(input@),
{
    let mut log = EventLog { events: Vec::new() };
    let mut parser = anstyle_parse::Parser::<anstyle_parse::DefaultCharAccumulator>::new();
    for byte in input.as_bytes() {
        parser.advance(&mut log, *byte);
    }
    log.events
}

// ------------------------------------------------------------------------
// SGR interpretation
// ------------------------------------------------------------------------

/// First value of a parameter group (0 when the group is empty).
pub open spec fn head(g: Seq<u16>) -> u16 {
    if g.len() > 0 { g[0] } else { 0 }
}

pub open spec fn is_single(g: Seq<u16>, v: u16) -> bool {
    g.len() == 1 && g[0] == v
}

/// The effect of the SGR parameter at position `i`: the new colour and
/// weight, and how many following parameters it consumes.
pub open spec fn sgr_code(codes: Seq<Seq<u16>>, i: int, color: Option<Rgb>, bold: bool) -> (Option<Rgb>, bool, int) {
    let g = codes[i];
    let code = head(g);
    if code == 0 {
        (None, false, 0)
    } else if code == 1 {
        (color, true, 0)
    } else if code == 22 {
        (color, false, 0)
    } else if 30 <= code <= 37 {
        (Some(basic_rgb(code - 30, false)), bold, 0)
    } else if 90 <= code <= 97 {
        (Some(basic_rgb(code - 90, true)), bold, 0)
    } else if code == 39 {
        (None, bold, 0)
    } else if code == 38 {
        if g.len() >= 3 && g[1] == 5 {
            (Some(indexed_rgb(g[2] as int)), bold, 0)
        } else if g.len() >= 5 && g[1] == 2 {
            (Some(truecolor(g[2], g[3], g[4])), bold, 0)
        } else if codes.len() > i + 2 && is_single(codes[i + 1], 5) {
            (Some(indexed_rgb(head(codes[i + 2]) as int)), bold, 2)
        } else if codes.len() > i + 4 && is_single(codes[i + 1], 2) {
            (Some(truecolor(head(codes[i + 2]), head(codes[i + 3]), head(codes[i + 4]))), bold, 4)
        } else {
            (color, bold, 0)
        }
    } else {
        (color, bold, 0)
    }
}

/// The colour and weight after applying the SGR parameters from position
/// `i` on, left to right.
pub open spec fn sgr_from(codes: Seq<Seq<u16>>, i: int, color: Option<Rgb>, bold: bool) -> (Option<Rgb>, bool)
    decreases codes.len() - i,
{
    if i < 0 || i >= codes.len() {
        (color, bold)
    } else {
        let (c, b, skip) = sgr_code(codes, i, color, bold);
        if skip < 0 {
            (c, b)
        } else {
            sgr_from(codes, i + skip + 1, c, b)
        }
    }
}

// ------------------------------------------------------------------------
// Collector
// ------------------------------------------------------------------------

/// The state of the span collector.
pub struct CollectorView {
    pub spans: Seq<SpanView>,
    pub current: Seq<char>,
    pub color: Option<Rgb>,
    pub bold: bool,
}

pub open spec fn initial_collector() -> CollectorView {
    CollectorView { spans: Seq::empty(), current: Seq::empty(), color: None, bold: false }
}

/// Closes the pending text, if any, into a span with the current style.
pub open spec fn flush_view(st: CollectorView) -> CollectorView {
    if st.current.len() > 0 {
        CollectorView {
            spans: st.spans.push(SpanView { text: st.current, color: st.color, bold: st.bold }),
            current: Seq::empty(),
            ..st
        }
    } else {
        st
    }
}

/// What one terminal action does to the collector: characters, newlines
/// and tabs are kept; an SGR sequence closes the pending text and changes
/// the style; everything else is dropped.
pub open spec fn step_view(st: CollectorView, ev: VtAct) -> CollectorView {
    match ev {
        VtAct::Print(c) => CollectorView { current: st.current.push(c), ..st },
        VtAct::Execute(b) => {
            if b == 10 {
                CollectorView { current: st.current.push('\n'), ..st }
            } else if b == 9 {
                CollectorView { current: st.current.push('\t'), ..st }
            } else {
                st
            }
        },
        VtAct::Csi(params, ignore, action) => {
            if !ignore && action == 109 {
                let f = flush_view(st);
                let (c, b) = sgr_from(params, 0, f.color, f.bold);
                CollectorView { color: c, bold: b, ..f }
            } else {
                st
            }
        },
    }
}

pub open spec fn run_view(events: Seq<VtAct>) -> CollectorView
    decreases events.len(),
{
    if events.len() == 0 {
        initial_collector()
    } else {
        step_view(run_view(events.drop_last()), events.last())
    }
}

/// The spans that a sequence of terminal actions yields.
pub open spec fn spans_of_actions(events: Seq<VtAct>) -> Seq<SpanView> {
    flush_view(run_view(events)).spans
}

/// The text that a sequence of terminal actions draws: printed characters,
/// newlines and tabs, in order.
pub open spec fn drawn_text(events: Seq<VtAct>) -> Seq<char>
    decreases events.len(),
{
    if events.len() == 0 {
        Seq::empty()
    } else {
        let prev = drawn_text(events.drop_last());
        match events.last() {
            VtAct::Print(c) => prev.push(c),
            VtAct::Execute(b) => {
                if b == 10 { prev.push('\n') } else if b == 9 { prev.push('\t') } else { prev }
            },
            VtAct::Csi(_, _, _) => prev,
        }
    }
}

pub open spec fn span_texts(spans: Seq<SpanView>) -> Seq<Seq<char>> {
    spans.map_values(|s: SpanView| s.text)
}

/// Collects spans while the terminal actions arrive.
pub(crate) struct Collector {
    spans: Vec<AnsiSpan>,
    current: String,
    color: Option<Rgb>,
    bold: bool,
}

impl View for Collector {
    type V = CollectorView;

    closed spec fn view(&self) -> CollectorView {
        CollectorView {
            spans: spans_view(self.spans@),
            current: self.current@,
            color: self.color,
            bold: self.bold,
        }
    }
}

impl Collector {
    fn new() -> (c: Collector)
        ensures
            c@ == initial_collector(),
    {
        let c = Collector { spans: Vec::new(), current: String::new(), color: None, bold: false };
        assert(c@.spans =~= Seq::<SpanView>::empty());
        c
    }

    fn flush(&mut self)
        ensures
            final(self)@ == flush_view(old(self)@),
    {
        if !self.current.as_str().is_empty() {
            let mut text = String::new();
            std::mem::swap(&mut text, &mut self.current);
            let span = AnsiSpan { text, color: self.color, bold: self.bold };
            let ghost prev = self.spans@;
            self.spans.push(span);
            assert(spans_view(self.spans@) =~= spans_view(prev).push(span@));
        }
    }

    fn apply_sgr(&mut self, codes: &Vec<Vec<u16>>)
        ensures
            final(self)@ == (CollectorView {
                color: sgr_from(groups_view(codes@), 0, old(self)@.color, old(self)@.bold).0,
                bold: sgr_from(groups_view(codes@), 0, old(self)@.color, old(self)@.bold).1,
                ..old(self)@
            }),
    {
        let ghost cv = groups_view(codes@);
        let ghost target = sgr_from(cv, 0, self.color, self.bold);
        let ghost before = self@;
        let n = codes.len();
        let mut i: usize = 0;
        while i < n
            invariant
                n == codes@.len(),
                cv == groups_view(codes@),
                i <= n,
                sgr_from(cv, i as int, self.color, self.bold) == target,
                self@.spans == before.spans,
                self@.current == before.current,
            decreases n - i,
        {
            let g = &codes[i];
            assert(cv[i as int] == g@);
            let code: u16 = if g.len() > 0 { g[0] } else { 0 };
            let mut skip: usize = 0;
            if code == 0 {
                self.color = None;
                self.bold = false;
            } else if code == 1 {
                self.bold = true;
            } else if code == 22 {
                self.bold = false;
            } else if 30 <= code && code <= 37 {
                self.color = Some(basic_color(code - 30, false));
            } else if 90 <= code && code <= 97 {
                self.color = Some(basic_color(code - 90, true));
            } else if code == 39 {
                self.color = None;
            } else if code == 38 {
                if g.len() >= 3 && g[1] == 5 {
                    self.color = Some(indexed_color(g[2]));
                } else if g.len() >= 5 && g[1] == 2 {
                    self.color = Some(rgb(g[2], g[3], g[4]));
                } else if n - i > 2 && codes[i + 1].len() == 1 && codes[i + 1][0] == 5 {
                    assert(cv[i + 1] == codes@[i + 1]@);
                    assert(cv[i + 2] == codes@[i + 2]@);
                    let g2 = &codes[i + 2];
                    let v: u16 = if g2.len() > 0 { g2[0] } else { 0 };
                    self.color = Some(indexed_color(v));
                    skip = 2;
                } else if n - i > 4 && codes[i + 1].len() == 1 && codes[i + 1][0] == 2 {
                    assert(cv[i + 1] == codes@[i + 1]@);
                    assert(cv[i + 2] == codes@[i + 2]@);
                    assert(cv[i + 3] == codes@[i + 3]@);
                    assert(cv[i + 4] == codes@[i + 4]@);
                    let g2 = &codes[i + 2];
                    let g3 = &codes[i + 3];
                    let g4 = &codes[i + 4];
                    let r: u16 = if g2.len() > 0 { g2[0] } else { 0 };
                    let gg: u16 = if g3.len() > 0 { g3[0] } else { 0 };
                    let b: u16 = if g4.len() > 0 { g4[0] } else { 0 };
                    self.color = Some(rgb(r, gg, b));
                    skip = 4;
                } else {
                    assert(!(n > i + 2 && is_single(cv[i + 1], 5))) by {
                        if n > i + 2 {
                            assert(cv[i + 1] == codes@[i + 1]@);
                        }
                    }
                    assert(!(n > i + 4 && is_single(cv[i + 1], 2))) by {
                        if n > i + 4 {
                            assert(cv[i + 1] == codes@[i + 1]@);
                        }
                    }
                }
            }
            i = i + skip + 1;
        }
    }

    fn step(&mut self, ev: &VtEvent)
        ensures
            final(self)@ == step_view(old(self)@, ev@),
    {
        match ev {
            VtEvent::Print(c) => {
                push_char(&mut self.current, *c);
            },
            VtEvent::Execute(b) => {
                if *b == 10 {
                    push_char(&mut self.current, '\n');
                } else if *b == 9 {
                    push_char(&mut self.current, '\t');
                }
            },
            VtEvent::Csi { params, ignore, action } => {
                if !*ignore && *action == 109 {
                    self.flush();
                    self.apply_sgr(params);
                }
            },
        }
    }
}

/// Turns a sequence of terminal actions into styled spans.
pub fn collect_spans(events: &Vec<VtEvent>) -> (res: Vec<AnsiSpan>)
    ensures
        spans_view(res@) == spans_of_actions(events_view(events@)),
{
    let mut c = Collector::new();
    let n = events.len();
    let mut i: usize = 0;
    while i < n
        invariant
            n == events@.len(),
            i <= n,
            c@ == run_view(events_view(events@).take(i as int)),
        decreases n - i,
    {
        let ghost ev = events_view(events@);
        assert(ev.take(i + 1).drop_last() =~= ev.take(i as int));
        c.step(&events[i]);
        i = i + 1;
    }
    assert(events_view(events@).take(n as int) =~= events_view(events@));
    c.flush();
    c.spans
}

/// Parses text possibly containing ANSI escapes into styled spans.
/// Escape sequences other than SGR are dropped.
pub fn parse(input: &str) -> (res: Vec<AnsiSpan>)
    ensures
        spans_view(res@) == spans_of_actions(vt_actions(input@)),
        plain_text(input@) ==> spans_view(res@) == plain_spans(input@),
{
    let events = vt_events(input);
    proof {
        if plain_text(input@) {
            law_plain_text_one_span(input@);
        }
    }
    collect_spans(&events)
}

// ------------------------------------------------------------------------
// Laws
// ------------------------------------------------------------------------

proof fn lemma_flush_text(st: CollectorView)
    ensures
        concat_all(span_texts(flush_view(st).spans)) =~= concat_all(span_texts(st.spans)) + st.current,
        flush_view(st).current.len() == 0,
        (forall|k: int| 0 <= k < st.spans.len() ==> #[trigger] st.spans[k].text.len() > 0)
            ==> (forall|k: int| 0 <= k < flush_view(st).spans.len() ==> #[trigger] flush_view(st).spans[k].text.len() > 0),
{
    if st.current.len() > 0 {
        let s = SpanView { text: st.current, color: st.color, bold: st.bold };
        assert(span_texts(st.spans.push(s)) =~= span_texts(st.spans).push(st.current));
        lemma_concat_all_push(span_texts(st.spans), st.current);
    }
}

proof fn lemma_run_text(events: Seq<VtAct>)
    ensures
        concat_all(span_texts(run_view(events).spans)) + run_view(events).current == drawn_text(events),
        forall|k: int| 0 <= k < run_view(events).spans.len() ==> #[trigger] run_view(events).spans[k].text.len() > 0,
    decreases events.len(),
{
    if events.len() > 0 {
        let prev = events.drop_last();
        lemma_run_text(prev);
        let st = run_view(prev);
        match events.last() {
            VtAct::Print(c) => {
                assert(concat_all(span_texts(st.spans)) + st.current.push(c) =~= (concat_all(span_texts(st.spans)) + st.current).push(c));
            },
            VtAct::Execute(b) => {
                assert(concat_all(span_texts(st.spans)) + st.current.push('\n') =~= (concat_all(span_texts(st.spans)) + st.current).push('\n'));
                assert(concat_all(span_texts(st.spans)) + st.current.push('\t') =~= (concat_all(span_texts(st.spans)) + st.current).push('\t'));
            },
            VtAct::Csi(params, ignore, action) => {
                lemma_flush_text(st);
                assert(flush_view(st).current =~= Seq::<char>::empty());
            },
        }
    }
}

/// Decoding keeps the drawn text: the texts of the spans, concatenated,
/// are exactly the printed characters, newlines and tabs, in order; no
/// span is empty.
pub proof fn law_spans_keep_text(events: Seq<VtAct>)
    ensures
        concat_all(span_texts(spans_of_actions(events))) == drawn_text(events),
        forall|k: int| 0 <= k < spans_of_actions(events).len() ==> #[trigger] spans_of_actions(events)[k].text.len() > 0,
{
    lemma_run_text(events);
    lemma_flush_text(run_view(events));
    assert(flush_view(run_view(events)).current =~= Seq::<char>::empty());
}

/// An SGR reset (`ESC[0m`, or `ESC[m`, whose only parameter is 0)
/// returns to the default colour and normal weight.
pub proof fn law_sgr_reset(color: Option<Rgb>, bold: bool)
    ensures
        sgr_from(seq![seq![0u16]], 0, color, bold) == (None::<Rgb>, false),
{
    assert(head(seq![seq![0u16]][0]) == 0);
    assert(sgr_from(seq![seq![0u16]], 1, None, false) == (None::<Rgb>, false));
}


/// The spans of plain text: none for empty text, else the whole text as
/// one span in the default colour and normal weight.
pub open spec fn plain_spans(s: Seq<char>) -> Seq<SpanView> {
    if s.len() == 0 {
        Seq::empty()
    } else {
        seq![SpanView { text: s, color: None, bold: false }]
    }
}

proof fn lemma_plain_run(s: Seq<char>)
    requires
        plain_text(s),
    ensures
        run_view(plain_actions(s)) == (CollectorView { spans: Seq::empty(), current: s, color: None, bold: false }),
    decreases s.len(),
{
    if s.len() > 0 {
        let prev = s.drop_last();
        assert(plain_text(prev)) by {
            assert forall|k: int| 0 <= k < prev.len() implies (#[trigger] prev[k]) == '\n' || prev[k] == '\t'
                || prev[k] as u32 >= 0x20 by {
                assert(prev[k] == s[k]);
            }
        }
        lemma_plain_run(prev);
        assert(plain_actions(s).drop_last() =~= plain_actions(prev));
        assert(plain_actions(s).last() == plain_action(s.last()));
        assert(prev.push(s.last()) =~= s);
    } else {
        assert(plain_actions(s) =~= Seq::<VtAct>::empty());
        assert(s =~= Seq::<char>::empty());
    }
}

/// Plain text (no escape or control characters besides newlines and tabs)
/// comes out as one span in the default style holding the whole text, or
/// as no span when it is empty.
pub proof fn law_plain_text_one_span(s: Seq<char>)
    requires
        plain_text(s),
    ensures
        spans_of_actions(plain_actions(s)) == plain_spans(s),
{
    lemma_plain_run(s);
    assert(spans_of_actions(plain_actions(s)) =~= plain_spans(s));
}


/// A 256-colour foreground given as separate SGR parameters `38;5;n` sets
/// the colour to palette entry `n` of the xterm palette, keeps the weight,
/// and consumes all three parameters: entries 0-7 and 8-15 are the colours
/// of `30+n` and `90+(n-8)`, 16-231 the 6x6x6 cube (levels 0, 95, 135,
/// 175, 215, 255), 232-255 a grey ramp from 8 in steps of 10, and higher
/// entries white.
pub proof fn law_sgr_indexed_separate(n: u16, color: Option<Rgb>, bold: bool)
    ensures
        ({
            let (c, b) = sgr_from(seq![seq![38u16], seq![5u16], seq![n]], 0, color, bold);
            &&& b == bold
            &&& c is Some
            &&& (n <= 7 ==> c == sgr_from(seq![seq![(30 + n) as u16]], 0, color, bold).0)
            &&& (8 <= n <= 15 ==> c == sgr_from(seq![seq![(90 + n - 8) as u16]], 0, color, bold).0)
            &&& (16 <= n <= 231 ==> {
                    let i = n - 16;
                    &&& c->0.r as int == (if i / 36 == 0 { 0 } else { 55 + 40 * (i / 36) })
                    &&& c->0.g as int == (if (i % 36) / 6 == 0 { 0 } else { 55 + 40 * ((i % 36) / 6) })
                    &&& c->0.b as int == (if i % 6 == 0 { 0 } else { 55 + 40 * (i % 6) })
                })
            &&& (232 <= n <= 255 ==> c->0.r as int == 8 + 10 * (n - 232) && c->0.g == c->0.r && c->0.b == c->0.r)
            &&& (n >= 256 ==> c == Some(Rgb { r: 255, g: 255, b: 255 }))
        }),
{
    let codes = seq![seq![38u16], seq![5u16], seq![n]];
    assert(codes[0][0] == 38u16 && codes[0].len() == 1);
    assert(is_single(codes[1], 5));
    assert(head(codes[2]) == n);
    assert(sgr_from(codes, 3, Some(indexed_rgb(n as int)), bold) == (Some(indexed_rgb(n as int)), bold));
    if n <= 15 {
        let code: u16 = if n <= 7 { (30 + n) as u16 } else { (90 + n - 8) as u16 };
        let one = seq![seq![code]];
        assert(head(one[0]) == code);
        assert(sgr_from(one, 1, Some(basic_rgb(if n <= 7 { n as int } else { n - 8 }, n >= 8)), bold)
            == (Some(basic_rgb(if n <= 7 { n as int } else { n - 8 }, n >= 8)), bold));
    }
    if 16 <= n <= 231 {
        let i = n - 16;
        assert(0 <= i / 36 <= 5) by (nonlinear_arith) requires 0 <= i <= 215;
        assert(0 <= (i % 36) / 6 <= 5) by (nonlinear_arith) requires 0 <= i <= 215;
        assert(0 <= i % 6 <= 5) by (nonlinear_arith) requires 0 <= i <= 215;
    }
}

/// A truecolor foreground given as separate SGR parameters `38;2;r;g;b`
/// sets that colour (each component's low eight bits) and keeps the weight.
pub proof fn law_sgr_truecolor_separate(r: u16, g: u16, b: u16, color: Option<Rgb>, bold: bool)
    ensures
        sgr_from(seq![seq![38u16], seq![2u16], seq![r], seq![g], seq![b]], 0, color, bold)
            == (Some(Rgb { r: r as u8, g: g as u8, b: b as u8 }), bold),
{
    let codes = seq![seq![38u16], seq![2u16], seq![r], seq![g], seq![b]];
    assert(head(codes[0]) == 38u16 && codes[0].len() == 1);
    assert(!is_single(codes[1], 5) && is_single(codes[1], 2));
    assert(head(codes[2]) == r && head(codes[3]) == g && head(codes[4]) == b);
    assert(sgr_from(codes, 5, Some(truecolor(r, g, b)), bold) == (Some(truecolor(r, g, b)), bold));
}

} // verus!
