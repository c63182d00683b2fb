//! In-memory notebook document: the app-side cell model and its mapping
//! to and from the nbformat v4 cell representation.

use vstd::prelude::*;
use nbformat::v4::{CellId, CellMetadata, Metadata};
use crate::nbfile::{json_object, json_object_from};
use jupyter_protocol::Media;
use crate::render::{self, Rendered, RenderedView, prepared, media_contents};
use crate::text::{concat_all, lemma_concat_all_push, push_char, push_str, chars_of, str_eq};

verus! {

// ------------------------------------------------------------------------
// Line splitting
// ------------------------------------------------------------------------

/// The nbformat line split of a text: lines that each keep their
/// terminating `\n` (the last line may lack one).
pub open spec fn lines_of(t: Seq<char>) -> Seq<Seq<char>>
    decreases t.len(),
{
    if t.len() == 0 {
        Seq::empty()
    } else {
        let prev = lines_of(t.drop_last());
        let c = t.last();
        if prev.len() == 0 || prev.last().last() == '\n' {
            prev.push(seq![c])
        } else {
            prev.drop_last().push(prev.last().push(c))
        }
    }
}

/// A line list is well formed when no line is empty, `\n` occurs in a
/// line only as its last character, and every line but the last ends with
/// `\n`.
pub open spec fn well_split(lines: Seq<Seq<char>>) -> bool {
    &&& forall|k: int| 0 <= k < lines.len() ==> #[trigger] lines[k].len() > 0
    &&& forall|k: int, j: int| 0 <= k < lines.len() && 0 <= j < lines[k].len() - 1 ==> #[trigger] lines[k][j] != '\n'
    &&& forall|k: int| 0 <= k < lines.len() - 1 ==> #[trigger] lines[k].last() == '\n'
}

proof fn lemma_lines_of(t: Seq<char>)
    ensures
        concat_all(lines_of(t)) == t,
        well_split(lines_of(t)),
    decreases t.len(),
{
    if t.len() > 0 {
        let p = t.drop_last();
        lemma_lines_of(p);
        let prev = lines_of(p);
        let c = t.last();
        if prev.len() == 0 || prev.last().last() == '\n' {
            lemma_concat_all_push(prev, seq![c]);
            assert(p + seq![c] =~= t);
            let l = prev.push(seq![c]);
            assert forall|k: int| 0 <= k < l.len() - 1 implies #[trigger] l[k].last() == '\n' by {
                if k < prev.len() - 1 {
                } else {
                    assert(k == prev.len() - 1);
                }
            }
        } else {
            let front = prev.drop_last();
            assert(front.push(prev.last()) =~= prev);
            lemma_concat_all_push(front, prev.last());
            lemma_concat_all_push(front, prev.last().push(c));
            assert(concat_all(front) + prev.last().push(c) =~= (concat_all(front) + prev.last()).push(c));
            assert(p.push(c) =~= t);
            let l = front.push(prev.last().push(c));
            assert forall|k: int, j: int| 0 <= k < l.len() && 0 <= j < l[k].len() - 1 implies #[trigger] l[k][j] != '\n' by {
                if k < front.len() {
                    assert(l[k] == prev[k]);
                } else {
                    if j < prev.last().len() - 1 {
                        assert(l[k][j] == prev[prev.len() - 1][j]);
                    } else {
                        assert(l[k][j] == prev.last().last());
                    }
                }
            }
            assert forall|k: int| 0 <= k < l.len() - 1 implies #[trigger] l[k].last() == '\n' by {
                assert(l[k] == prev[k]);
            }
            assert forall|k: int| 0 <= k < l.len() implies #[trigger] l[k].len() > 0 by {
                if k < front.len() {
                    assert(l[k] == prev[k]);
                }
            }
        }
    }
}

/// Splitting into lines loses nothing: the lines concatenate back to the
/// text, and the split is well formed.
pub proof fn law_lines_concat(t: Seq<char>)
    ensures
        concat_all(lines_of(t)) == t,
        well_split(lines_of(t)),
        t.len() == 0 <==> lines_of(t).len() == 0,
{
    lemma_lines_of(t);
    if t.len() > 0 {
        assert(lines_of(t).len() > 0);
    }
}

pub open spec fn strings_view(v: Seq<String>) -> Seq<Seq<char>> {
    v.map_values(|s: String| s@)
}

/// nbformat convention: sources are stored as lines, each retaining its
/// `\n`.
pub fn split_lines(text: &str) -> (res: Vec<String>)
    ensures
        strings_view(res@) == lines_of(text@),
{
    let chars = chars_of(text);
    let n = chars.len();
    let mut lines: Vec<String> = Vec::new();
    let mut cur = String::new();
    let mut i: usize = 0;
    while i < n
        invariant
            n == chars@.len(),
            chars@ == text@,
            i <= n,
            lines_of(text@.take(i as int)) == if cur@.len() == 0 {
                strings_view(lines@)
            } else {
                strings_view(lines@).push(cur@)
            },
            cur@.len() == 0 || cur@.last() != '\n',
            strings_view(lines@).len() == 0 || strings_view(lines@).last().last() == '\n',
        decreases n - i,
    {
        let ghost t = text@.take(i + 1);
        assert(t.drop_last() =~= text@.take(i as int));
        let c = chars[i];
        let ghost old_lines = strings_view(lines@);
        let ghost old_cur = cur@;
        push_char(&mut cur, c);
        if c == '\n' {
            let mut done = String::new();
            std::mem::swap(&mut done, &mut cur);
            lines.push(done);
            assert(strings_view(lines@) =~= old_lines.push(old_cur.push(c)));
            proof {
                if old_cur.len() == 0 {
                    assert(old_cur.push(c) =~= seq![c]);
                } else {
                    assert(old_lines.push(old_cur).drop_last() =~= old_lines);
                }
            }
        } else {
            proof {
                if old_cur.len() == 0 {
                    assert(old_cur.push(c) =~= seq![c]);
                } else {
                    assert(old_lines.push(old_cur).drop_last() =~= old_lines);
                }
            }
        }
        i = i + 1;
    }
    assert(text@.take(n as int) =~= text@);
    if cur.as_str().is_empty() {
        lines
    } else {
        let ghost old_lines = strings_view(lines@);
        lines.push(cur);
        assert(strings_view(lines@) =~= old_lines.push(lines@.last()@));
        lines
    }
}

// ------------------------------------------------------------------------
// Cell model
// ------------------------------------------------------------------------

/// The kind of a cell.
#[derive(Debug, Clone)]
pub enum CellKind {
    Code,
    /// `rendered` is the markdown source that the view currently shows
    /// (it is refreshed when the cell is run); `editing` is set while the
    /// source editor is open.
    Markdown { rendered: String, editing: bool },
    Raw,
}

/// A cell output, unified across live kernel messages and saved notebooks.
#[derive(Debug)]
pub enum CellOutput {
    Stream { name: String, text: String },
    /// display_data, or execute_result when `execution_count` is set.
    Data { media: Media, execution_count: Option<usize>, rendered: Rendered },
    Error { ename: String, evalue: String, traceback: Vec<String> },
}

/// A cell of an open notebook.
#[derive(Debug)]
pub struct CellState {
    pub id: CellId,
    pub kind: CellKind,
    pub source: String,
    pub outputs: Vec<CellOutput>,
    pub execution_count: Option<i32>,
    pub metadata: CellMetadata,
    pub running: bool,
}

pub enum KindView {
    Code,
    Markdown { rendered: Seq<char>, editing: bool },
    Raw,
}

pub enum OutputView {
    Stream { name: Seq<char>, text: Seq<char> },
    Data { media: Media, execution_count: Option<usize>, rendered: RenderedView },
    Error { ename: Seq<char>, evalue: Seq<char>, traceback: Seq<Seq<char>> },
}

pub struct CellView {
    pub id: CellId,
    pub kind: KindView,
    pub source: Seq<char>,
    pub outputs: Seq<OutputView>,
    pub execution_count: Option<i32>,
    pub metadata: CellMetadata,
    pub running: bool,
}

impl View for CellKind {
    type V = KindView;

    open spec fn view(&self) -> KindView {
        match self {
            CellKind::Code => KindView::Code,
            CellKind::Markdown { rendered, editing } => KindView::Markdown { rendered: rendered@, editing: *editing },
            CellKind::Raw => KindView::Raw,
        }
    }
}

impl View for CellOutput {
    type V = OutputView;

    open spec fn view(&self) -> OutputView {
        match self {
            CellOutput::Stream { name, text } => OutputView::Stream { name: name@, text: text@ },
            CellOutput::Data { media, execution_count, rendered } => OutputView::Data {
                media: *media,
                execution_count: *execution_count,
                rendered: rendered@,
            },
            CellOutput::Error { ename, evalue, traceback } => OutputView::Error {
                ename: ename@,
                evalue: evalue@,
                traceback: strings_view(traceback@),
            },
        }
    }
}

pub open spec fn outputs_view(v: Seq<CellOutput>) -> Seq<OutputView> {
    v.map_values(|o: CellOutput| o@)
}

impl View for CellState {
    type V = CellView;

    open spec fn view(&self) -> CellView {
        CellView {
            id: self.id,
            kind: self.kind@,
            source: self.source@,
            outputs: outputs_view(self.outputs@),
            execution_count: self.execution_count,
            metadata: self.metadata,
            running: self.running,
        }
    }
}

pub open spec fn cells_view(v: Seq<CellState>) -> Seq<CellView> {
    v.map_values(|c: CellState| c@)
}

/// The stream-merging rule: a chunk extends a trailing stream output of
/// the same name, otherwise it starts a new stream output.
pub open spec fn with_stream(outputs: Seq<OutputView>, name: Seq<char>, chunk: Seq<char>) -> Seq<OutputView> {
    if outputs.len() > 0 {
        match outputs.last() {
            OutputView::Stream { name: last, text } => {
                if last == name {
                    outputs.drop_last().push(OutputView::Stream { name, text: text + chunk })
                } else {
                    outputs.push(OutputView::Stream { name, text: chunk })
                }
            },
            _ => outputs.push(OutputView::Stream { name, text: chunk }),
        }
    } else {
        outputs.push(OutputView::Stream { name, text: chunk })
    }
}

impl CellState {
    /// The cell's source text.
    pub fn source_text(&self) -> (res: String)
        ensures
            res@ == self.source@,
    {
        self.source.clone()
    }

    /// Whether this is a code cell.
    pub fn is_code(&self) -> (res: bool)
        ensures
            res == (self.kind is Code),
    {
        matches!(self.kind, CellKind::Code)
    }

    /// Append a stream chunk, merging with a trailing stream output of the
    /// same name the way JupyterLab does.
    pub fn push_stream(&mut self, name: &str, chunk: &str)
        ensures
            final(self)@ == (CellView { outputs: with_stream(old(self)@.outputs, name@, chunk@), ..old(self)@ }),
    {
        let n = self.outputs.len();
        if n > 0 {
            let merge = match &self.outputs[n - 1] {
                CellOutput::Stream { name: last, .. } => str_eq(last.as_str(), name),
                _ => false,
            };
            if merge {
                let ghost before = outputs_view(self.outputs@);
                let last = self.outputs.pop();
                match last {
                    Some(CellOutput::Stream { name: last_name, text }) => {
                        let mut text = text;
                        push_str(&mut text, chunk);
                        self.outputs.push(CellOutput::Stream { name: last_name, text });
                        assert(outputs_view(self.outputs@) =~= with_stream(before, name@, chunk@));
                    },
                    _ => {
                        assert(false);
                    },
                }
                return;
            }
        }
        let ghost before = outputs_view(self.outputs@);
        let mut owned_name = String::new();
        push_str(&mut owned_name, name);
        let mut owned_chunk = String::new();
        push_str(&mut owned_chunk, chunk);
        self.outputs.push(CellOutput::Stream { name: owned_name, text: owned_chunk });
        assert(outputs_view(self.outputs@) =~= with_stream(before, name@, chunk@));
    }
}

/// Two chunks of one stream, pushed one after the other, leave the same
/// outputs as the two chunks pushed as one.
pub proof fn law_stream_chunks_merge(outputs: Seq<OutputView>, name: Seq<char>, a: Seq<char>, b: Seq<char>)
    ensures
        with_stream(with_stream(outputs, name, a), name, b) == with_stream(outputs, name, a + b),
{
    let once = with_stream(outputs, name, a);
    assert(once.len() > 0);
    assert(once.drop_last().push(once.last()) =~= once);
    if outputs.len() > 0 {
        match outputs.last() {
            OutputView::Stream { name: last, text } => {
                if last == name {
                    assert(text + a + b =~= text + (a + b));
                }
            },
            _ => {},
        }
    }
}

/// An open notebook.
#[derive(Debug)]
pub struct NotebookDoc {
    /// Where the notebook is saved; `None` until it is first saved.
    pub path: Option<String>,
    pub metadata: Metadata,
    pub nbformat_minor: i32,
    pub cells: Vec<CellState>,
    /// Whether there are changes that are not saved.
    pub dirty: bool,
}

/// A new, empty code cell with a fresh random id.
pub fn new_code_cell() -> (cell: CellState)
    ensures
        cell.kind is Code,
        cell.source@ == Seq::<char>::empty(),
        cell.outputs@.len() == 0,
        cell.execution_count is None,
        !cell.running,
{
    CellState {
        id: crate::nbfile::fresh_cell_id(),
        kind: CellKind::Code,
        source: String::new(),
        outputs: Vec::new(),
        execution_count: None,
        metadata: crate::nbfile::default_cell_metadata(),
        running: false,
    }
}

// ------------------------------------------------------------------------
// nbformat cells
// ------------------------------------------------------------------------

/// An nbformat v4 output, as the library reads and writes it.
#[derive(Debug)]
pub enum NbOutput {
    Stream { name: String, text: String },
    DisplayData { data: Media, metadata: serde_json::Map<String, serde_json::Value> },
    ExecuteResult { execution_count: usize, data: Media, metadata: serde_json::Map<String, serde_json::Value> },
    Error { ename: String, evalue: String, traceback: Vec<String> },
}

/// An nbformat v4 cell, its fields held by the library.
#[derive(Debug)]
pub enum NbCell {
    Code {
        id: CellId,
        metadata: CellMetadata,
        execution_count: Option<i32>,
        source: Vec<String>,
        outputs: Vec<NbOutput>,
    },
    Markdown { id: CellId, metadata: CellMetadata, source: Vec<String>, attachments: Option<serde_json::Value> },
    Raw { id: CellId, metadata: CellMetadata, source: Vec<String> },
}

pub enum NbOutputView {
    Stream { name: Seq<char>, text: Seq<char> },
    DisplayData { data: Media, metadata: serde_json::Map<String, serde_json::Value> },
    ExecuteResult { execution_count: usize, data: Media, metadata: serde_json::Map<String, serde_json::Value> },
    Error { ename: Seq<char>, evalue: Seq<char>, traceback: Seq<Seq<char>> },
}

pub enum NbCellView {
    Code {
        id: CellId,
        metadata: CellMetadata,
        execution_count: Option<i32>,
        source: Seq<Seq<char>>,
        outputs: Seq<NbOutputView>,
    },
    Markdown { id: CellId, metadata: CellMetadata, source: Seq<Seq<char>>, attachments: Option<serde_json::Value> },
    Raw { id: CellId, metadata: CellMetadata, source: Seq<Seq<char>> },
}

impl View for NbOutput {
    type V = NbOutputView;

    open spec fn view(&self) -> NbOutputView {
        match self {
            NbOutput::Stream { name, text } => NbOutputView::Stream { name: name@, text: text@ },
            NbOutput::DisplayData { data, metadata } => NbOutputView::DisplayData { data: *data, metadata: *metadata },
            NbOutput::ExecuteResult { execution_count, data, metadata } => NbOutputView::ExecuteResult {
                execution_count: *execution_count,
                data: *data,
                metadata: *metadata,
            },
            NbOutput::Error { ename, evalue, traceback } => NbOutputView::Error {
                ename: ename@,
                evalue: evalue@,
                traceback: strings_view(traceback@),
            },
        }
    }
}

pub open spec fn nb_outputs_view(v: Seq<NbOutput>) -> Seq<NbOutputView> {
    v.map_values(|o: NbOutput| o@)
}

impl View for NbCell {
    type V = NbCellView;

    open spec fn view(&self) -> NbCellView {
        match self {
            NbCell::Code { id, metadata, execution_count, source, outputs } => NbCellView::Code {
                id: *id,
                metadata: *metadata,
                execution_count: *execution_count,
                source: strings_view(source@),
                outputs: nb_outputs_view(outputs@),
            },
            NbCell::Markdown { id, metadata, source, attachments } => NbCellView::Markdown {
                id: *id,
                metadata: *metadata,
                source: strings_view(source@),
                attachments: *attachments,
            },
            NbCell::Raw { id, metadata, source } => NbCellView::Raw {
                id: *id,
                metadata: *metadata,
                source: strings_view(source@),
            },
        }
    }
}

pub open spec fn nb_cells_view(v: Seq<NbCell>) -> Seq<NbCellView> {
    v.map_values(|c: NbCell| c@)
}

/// A saved output as the app holds it; data outputs are prepared for
/// display.
pub open spec fn output_from_spec(o: NbOutputView) -> OutputView {
    match o {
        NbOutputView::Stream { name, text } => OutputView::Stream { name, text },
        NbOutputView::DisplayData { data, .. } => OutputView::Data {
            media: data,
            execution_count: None,
            rendered: prepared(media_contents(data)),
        },
        NbOutputView::ExecuteResult { execution_count, data, .. } => OutputView::Data {
            media: data,
            execution_count: Some(execution_count),
            rendered: prepared(media_contents(data)),
        },
        NbOutputView::Error { ename, evalue, traceback } => OutputView::Error { ename, evalue, traceback },
    }
}

/// The output metadata written with every display_data and
/// execute_result: the empty JSON object (the app keeps no output
/// metadata).
pub open spec fn written_output_metadata() -> serde_json::Map<String, serde_json::Value> {
    json_object(Seq::empty())
}

/// An output as it is saved: data with an execution count is an
/// execute_result, without one a display_data; both with empty metadata.
pub open spec fn output_to_spec(o: OutputView) -> NbOutputView {
    match o {
        OutputView::Stream { name, text } => NbOutputView::Stream { name, text },
        OutputView::Data { media, execution_count, rendered } => match execution_count {
            Some(c) => NbOutputView::ExecuteResult {
                execution_count: c,
                data: media,
                metadata: written_output_metadata(),
            },
            None => NbOutputView::DisplayData { data: media, metadata: written_output_metadata() },
        },
        OutputView::Error { ename, evalue, traceback } => NbOutputView::Error { ename, evalue, traceback },
    }
}

/// A saved cell as the app holds it: the source lines are joined, and the
/// cell is neither running nor being edited.
pub open spec fn cell_from_spec(c: NbCellView) -> CellView {
    match c {
        NbCellView::Code { id, metadata, execution_count, source, outputs } => CellView {
            id,
            kind: KindView::Code,
            source: concat_all(source),
            outputs: outputs.map_values(|o: NbOutputView| output_from_spec(o)),
            execution_count,
            metadata,
            running: false,
        },
        NbCellView::Markdown { id, metadata, source, attachments } => CellView {
            id,
            kind: KindView::Markdown { rendered: concat_all(source), editing: false },
            source: concat_all(source),
            outputs: Seq::empty(),
            execution_count: None,
            metadata,
            running: false,
        },
        NbCellView::Raw { id, metadata, source } => CellView {
            id,
            kind: KindView::Raw,
            source: concat_all(source),
            outputs: Seq::empty(),
            execution_count: None,
            metadata,
            running: false,
        },
    }
}

/// A cell as it is saved: its source split into lines; markdown
/// attachments are not kept.
pub open spec fn cell_to_spec(c: CellView) -> NbCellView {
    match c.kind {
        KindView::Code => NbCellView::Code {
            id: c.id,
            metadata: c.metadata,
            execution_count: c.execution_count,
            source: lines_of(c.source),
            outputs: c.outputs.map_values(|o: OutputView| output_to_spec(o)),
        },
        KindView::Markdown { .. } => NbCellView::Markdown {
            id: c.id,
            metadata: c.metadata,
            source: lines_of(c.source),
            attachments: None,
        },
        KindView::Raw => NbCellView::Raw { id: c.id, metadata: c.metadata, source: lines_of(c.source) },
    }
}

// Copies of values that the library only carries (derived `Clone`).

/// `CellId::clone` (derived): the copy equals the value copied.
#[verifier::external_body]
pub(crate) fn clone_cell_id(id: &CellId) -> (res: CellId)
    ensures
        res == *id,
{
    id.clone()
}

/// `CellMetadata::clone` (derived): the copy equals the value copied.
#[verifier::external_body]
pub(crate) fn clone_cell_metadata(m: &CellMetadata) -> (res: CellMetadata)
    ensures
        res == *m,
{
    m.clone()
}

/// `Media::clone` (derived): the copy equals the value copied.
#[verifier::external_body]
pub(crate) fn clone_media(m: &Media) -> (res: Media)
    ensures
        res == *m,
{
    m.clone()
}

fn clone_strings(v: &Vec<String>) -> (res: Vec<String>)
    ensures
        strings_view(res@) == strings_view(v@),
{
    let mut out: Vec<String> = Vec::new();
    let mut i: usize = 0;
    while i < v.len()
        invariant
            i <= v@.len(),
            strings_view(out@) == strings_view(v@).take(i as int),
        decreases v@.len() - i,
    {
        let ghost prev = out@;
        let s = v[i].clone();
        out.push(s);
        assert(out@ =~= prev.push(s));
        assert(strings_view(out@) =~= strings_view(prev).push(s@));
        assert(strings_view(v@).take(i + 1) =~= strings_view(v@).take(i as int).push(v@[i as int]@));
        assert(strings_view(out@) =~= strings_view(v@).take(i + 1));
        i = i + 1;
    }
    assert(strings_view(v@).take(v@.len() as int) =~= strings_view(v@));
    out
}

fn join_lines(lines: &Vec<String>) -> (res: String)
    ensures
        res@ == concat_all(strings_view(lines@)),
{
    let mut out = String::new();
    let mut i: usize = 0;
    while i < lines.len()
        invariant
            i <= lines@.len(),
            out@ == concat_all(strings_view(lines@).take(i as int)),
        decreases lines@.len() - i,
    {
        let ghost sv = strings_view(lines@);
        assert(sv.take(i + 1) =~= sv.take(i as int).push(sv[i as int]));
        proof {
            lemma_concat_all_push(sv.take(i as int), sv[i as int]);
        }
        push_str(&mut out, lines[i].as_str());
        i = i + 1;
    }
    assert(strings_view(lines@).take(lines@.len() as int) =~= strings_view(lines@));
    out
}

/// A saved output as the app holds it.
pub fn output_from_nbformat(output: NbOutput) -> (res: CellOutput)
    ensures
        res@ == output_from_spec(output@),
{
    match output {
        NbOutput::Stream { name, text } => CellOutput::Stream { name, text },
        NbOutput::DisplayData { data, .. } => {
            let rendered = render::prepare(&data);
            CellOutput::Data { media: data, execution_count: None, rendered }
        },
        NbOutput::ExecuteResult { execution_count, data, .. } => {
            let rendered = render::prepare(&data);
            CellOutput::Data { media: data, execution_count: Some(execution_count), rendered }
        },
        NbOutput::Error { ename, evalue, traceback } => CellOutput::Error { ename, evalue, traceback },
    }
}

/// The empty JSON object written as output metadata.
fn written_metadata() -> (m: serde_json::Map<String, serde_json::Value>)
    ensures
        m == written_output_metadata(),
{
    let entries: Vec<(String, serde_json::Value)> = Vec::new();
    let m = json_object_from(entries);
    assert(entries@.map_values(|e: (String, serde_json::Value)| (e.0@, e.1)) =~= Seq::empty());
    m
}

/// An output as it is saved.
pub fn output_to_nbformat(output: &CellOutput) -> (res: NbOutput)
    ensures
        res@ == output_to_spec(output@),
{
    match output {
        CellOutput::Stream { name, text } => NbOutput::Stream { name: name.clone(), text: text.clone() },
        CellOutput::Data { media, execution_count, .. } => match execution_count {
            Some(c) => NbOutput::ExecuteResult {
                execution_count: *c,
                data: clone_media(media),
                metadata: written_metadata(),
            },
            None => NbOutput::DisplayData { data: clone_media(media), metadata: written_metadata() },
        },
        CellOutput::Error { ename, evalue, traceback } => NbOutput::Error {
            ename: ename.clone(),
            evalue: evalue.clone(),
            traceback: clone_strings(traceback),
        },
    }
}

fn outputs_from_nbformat(outputs: Vec<NbOutput>) -> (res: Vec<CellOutput>)
    ensures
        outputs_view(res@) == nb_outputs_view(outputs@).map_values(|o: NbOutputView| output_from_spec(o)),
{
    let ghost src = nb_outputs_view(outputs@);
    let mut rest = outputs;
    let mut out: Vec<CellOutput> = Vec::new();
    while rest.len() > 0
        invariant
            rest@.len() <= src.len(),
            nb_outputs_view(rest@) == src.skip(src.len() - rest@.len()),
            outputs_view(out@) == src.take(src.len() - rest@.len()).map_values(|o: NbOutputView| output_from_spec(o)),
        decreases rest@.len(),
    {
        let ghost done = src.len() - rest@.len();
        let ghost before = rest@;
        let o = rest.remove(0);
        assert(o@ == nb_outputs_view(before)[0]);
        assert(nb_outputs_view(rest@) =~= nb_outputs_view(before).drop_first());
        assert(src.skip(done).drop_first() =~= src.skip(done + 1));
        let c = output_from_nbformat(o);
        assert(src.take(done + 1) =~= src.take(done).push(src[done]));
        let ghost prev = out@;
        out.push(c);
        assert(out@ =~= prev.push(c));
        assert(outputs_view(out@) =~= outputs_view(prev).push(c@));
        assert(src.take(done + 1).map_values(|o: NbOutputView| output_from_spec(o)) =~= src.take(done).map_values(
            |o: NbOutputView| output_from_spec(o),
        ).push(output_from_spec(src[done])));
        assert(outputs_view(out@) =~= src.take(done + 1).map_values(|o: NbOutputView| output_from_spec(o)));
    }
    assert(src.take(src.len() as int) =~= src);
    out
}

/// A saved cell as the app holds it.
pub fn cell_from_nbformat(cell: NbCell) -> (res: CellState)
    ensures
        res@ == cell_from_spec(cell@),
{
    match cell {
        NbCell::Code { id, metadata, execution_count, source, outputs } => CellState {
            id,
            kind: CellKind::Code,
            source: join_lines(&source),
            outputs: outputs_from_nbformat(outputs),
            execution_count,
            metadata,
            running: false,
        },
        NbCell::Markdown { id, metadata, source, attachments: _ } => {
            let text = join_lines(&source);
            let rendered = text.clone();
            let res = CellState {
                id,
                kind: CellKind::Markdown { rendered, editing: false },
                source: text,
                outputs: Vec::new(),
                execution_count: None,
                metadata,
                running: false,
            };
            assert(outputs_view(res.outputs@) =~= Seq::<OutputView>::empty());
            res
        },
        NbCell::Raw { id, metadata, source } => {
            let res = CellState {
                id,
                kind: CellKind::Raw,
                source: join_lines(&source),
                outputs: Vec::new(),
                execution_count: None,
                metadata,
                running: false,
            };
            assert(outputs_view(res.outputs@) =~= Seq::<OutputView>::empty());
            res
        },
    }
}

/// A cell as it is saved.
pub fn cell_to_nbformat(cell: &CellState) -> (res: NbCell)
    ensures
        res@ == cell_to_spec(cell@),
{
    let source = split_lines(cell.source.as_str());
    match &cell.kind {
        CellKind::Code => {
            let mut outputs: Vec<NbOutput> = Vec::new();
            let mut i: usize = 0;
            while i < cell.outputs.len()
                invariant
                    i <= cell.outputs@.len(),
                    nb_outputs_view(outputs@) == outputs_view(cell.outputs@).take(i as int).map_values(
                        |o: OutputView| output_to_spec(o),
                    ),
                decreases cell.outputs@.len() - i,
            {
                let o = output_to_nbformat(&cell.outputs[i]);
                let ghost src = outputs_view(cell.outputs@);
                assert(src.take(i + 1) =~= src.take(i as int).push(src[i as int]));
                let ghost prev = outputs@;
                outputs.push(o);
                assert(outputs@ =~= prev.push(o));
                assert(nb_outputs_view(outputs@) =~= nb_outputs_view(prev).push(o@));
                assert(src.take(i + 1).map_values(|o: OutputView| output_to_spec(o)) =~= src.take(i as int).map_values(
                    |o: OutputView| output_to_spec(o),
                ).push(output_to_spec(src[i as int])));
                assert(nb_outputs_view(outputs@) =~= src.take(i + 1).map_values(|o: OutputView| output_to_spec(o)));
                i = i + 1;
            }
            assert(outputs_view(cell.outputs@).take(cell.outputs@.len() as int) =~= outputs_view(cell.outputs@));
            NbCell::Code {
                id: clone_cell_id(&cell.id),
                metadata: clone_cell_metadata(&cell.metadata),
                execution_count: cell.execution_count,
                source,
                outputs,
            }
        },
        CellKind::Markdown { .. } => NbCell::Markdown {
            id: clone_cell_id(&cell.id),
            metadata: clone_cell_metadata(&cell.metadata),
            source,
            attachments: None,
        },
        CellKind::Raw => NbCell::Raw {
            id: clone_cell_id(&cell.id),
            metadata: clone_cell_metadata(&cell.metadata),
            source,
        },
    }
}

// ------------------------------------------------------------------------
// Laws of the mapping
// ------------------------------------------------------------------------

/// Saving an output and reading it back gives the same output; only the
/// rendering of a data output is prepared anew, from the same bundle.
pub proof fn law_output_round_trip(o: OutputView)
    ensures
        output_from_spec(output_to_spec(o)) == match o {
            OutputView::Data { media, execution_count, .. } => OutputView::Data {
                media,
                execution_count,
                rendered: prepared(media_contents(media)),
            },
            _ => o,
        },
        output_to_spec(output_from_spec(output_to_spec(o))) == output_to_spec(o),
{
}

/// A saved output as it is written again: the same, with empty output
/// metadata.
pub open spec fn rewritten(o: NbOutputView) -> NbOutputView {
    match o {
        NbOutputView::DisplayData { data, .. } => NbOutputView::DisplayData { data, metadata: written_output_metadata() },
        NbOutputView::ExecuteResult { execution_count, data, .. } => NbOutputView::ExecuteResult {
            execution_count,
            data,
            metadata: written_output_metadata(),
        },
        _ => o,
    }
}

/// Reading a saved output and saving it again gives the saved output, its
/// output metadata emptied.
pub proof fn law_nb_output_round_trip(o: NbOutputView)
    ensures
        output_to_spec(output_from_spec(o)) == rewritten(o),
{
}

/// Saving a cell and reading it back keeps its id, kind, source text,
/// execution count (code cells), metadata and outputs (up to the
/// prepared rendering, which is recomputed from the same bundle); the
/// cell comes back idle and not being edited.
pub proof fn law_cell_round_trip(c: CellView)
    ensures
        ({
            let back = cell_from_spec(cell_to_spec(c));
            &&& back.id == c.id
            &&& back.metadata == c.metadata
            &&& back.source == c.source
            &&& (c.kind is Code <==> back.kind is Code)
            &&& (c.kind is Markdown <==> back.kind is Markdown)
            &&& (c.kind is Raw <==> back.kind is Raw)
            &&& (c.kind is Code ==> back.execution_count == c.execution_count)
            &&& (c.kind is Code ==> back.outputs.len() == c.outputs.len())
            &&& (c.kind is Code ==> forall|k: int| 0 <= k < c.outputs.len() ==>
                    #[trigger] output_to_spec(back.outputs[k]) == output_to_spec(c.outputs[k]))
            &&& !back.running
        }),
{
    law_lines_concat(c.source);
}

/// Reading a saved cell and saving it again keeps its id, metadata, kind,
/// execution count and outputs, and its source text (the line split may be
/// normalised); markdown attachments are dropped.
pub proof fn law_nb_cell_round_trip(c: NbCellView)
    ensures
        ({
            let again = cell_to_spec(cell_from_spec(c));
            match (c, again) {
                (NbCellView::Code { id, metadata, execution_count, source, outputs },
                 NbCellView::Code { id: i2, metadata: m2, execution_count: e2, source: s2, outputs: o2 }) =>
                    id == i2 && metadata == m2 && execution_count == e2 && concat_all(s2) == concat_all(source)
                        && o2 == outputs.map_values(|o: NbOutputView| rewritten(o)),
                (NbCellView::Markdown { id, metadata, source, .. }, NbCellView::Markdown { id: i2, metadata: m2, source: s2, attachments }) =>
                    id == i2 && metadata == m2 && concat_all(s2) == concat_all(source) && attachments is None,
                (NbCellView::Raw { id, metadata, source }, NbCellView::Raw { id: i2, metadata: m2, source: s2 }) =>
                    id == i2 && metadata == m2 && concat_all(s2) == concat_all(source),
                _ => false,
            }
        }),
{
    match c {
        NbCellView::Code { id, metadata, execution_count, source, outputs } => {
            law_lines_concat(concat_all(source));
            let again = cell_to_spec(cell_from_spec(c));
            if let NbCellView::Code { outputs: o2, .. } = again {
                assert(o2 =~= outputs.map_values(|o: NbOutputView| rewritten(o)));
            }
        },
        NbCellView::Markdown { source, .. } => {
            law_lines_concat(concat_all(source));
        },
        NbCellView::Raw { source, .. } => {
            law_lines_concat(concat_all(source));
        },
    }
}

} // verus!
