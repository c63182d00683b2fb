//! A notebook tab's bookkeeping while it talks to its kernel: which
//! execution request belongs to which cell, how kernel messages change the
//! cells, and what running, restarting and editing a cell do.
//!
//! The kernel itself is reached by the caller; this module decides, and
//! says what to send.

use vstd::prelude::*;
use jupyter_protocol::Media;
use crate::model::{
    CellKind, CellOutput, CellState, CellView, KindView, NotebookDoc, OutputView, cells_view,
    outputs_view, with_stream,
};
use crate::nbfile::{
    default_metadata, kernelspec_display_name_of, kernelspec_language, kernelspec_language_of, kernelspec_name, kernelspec_name_of,
    language_info_name, language_info_name_of, metadata_for_kernel, notebook_json, save, saved_cells,
    saved_minor,
};
use crate::kernels::KernelSpecInfo;
use crate::model::new_code_cell;
use crate::render::{self, prepared, media_contents};
use crate::text::{lowercase, push_decimal, push_str, str_eq, to_lowercase, decimal};

verus! {

// ------------------------------------------------------------------------
// Pending executions
// ------------------------------------------------------------------------

/// An execute request in flight: its message id and the cell it runs.
#[derive(Debug, Clone)]
pub struct Pending {
    pub msg_id: String,
    pub cell: usize,
}

/// The cell an execute request belongs to (the latest registration wins).
pub open spec fn pending_lookup(p: Seq<Pending>, id: Seq<char>) -> Option<usize>
    decreases p.len(),
{
    if p.len() == 0 {
        None
    } else if p.last().msg_id@ == id {
        Some(p.last().cell)
    } else {
        pending_lookup(p.drop_last(), id)
    }
}

pub open spec fn pending_without(p: Seq<Pending>, id: Seq<char>) -> Seq<Pending> {
    p.filter(|e: Pending| e.msg_id@ != id)
}

pub open spec fn pending_with(p: Seq<Pending>, id: Seq<char>, cell: usize) -> Seq<Pending> {
    pending_without(p, id).push(Pending { msg_id: arbitrary_string_with_view(id), cell })
}

/// Some `String` whose view is `id` (pending entries are compared by view).
pub open spec fn arbitrary_string_with_view(id: Seq<char>) -> String {
    choose|s: String| s@ == id
}

fn lookup_pending(p: &Vec<Pending>, id: &str) -> (res: Option<usize>)
    ensures
        res == pending_lookup(p@, id@),
{
    let mut i = p.len();
    assert(p@.take(i as int) =~= p@);
    while i > 0
        invariant
            i <= p@.len(),
            pending_lookup(p@, id@) == pending_lookup(p@.take(i as int), id@),
        decreases i,
    {
        assert(p@.take(i as int).drop_last() =~= p@.take(i - 1));
        assert(p@.take(i as int).last() == p@[i - 1]);
        if str_eq(p[i - 1].msg_id.as_str(), id) {
            return Some(p[i - 1].cell);
        }
        i = i - 1;
    }
    None
}

fn remove_pending(p: &mut Vec<Pending>, id: &str)
    ensures
        final(p)@ == pending_without(old(p)@, id@),
{
    let ghost src = p@;
    let mut kept: Vec<Pending> = Vec::new();
    let mut i: usize = 0;
    while i < p.len()
        invariant
            p@ == src,
            i <= src.len(),
            kept@ == pending_without(src.take(i as int), id@),
        decreases src.len() - i,
    {
        reveal_with_fuel(Seq::<_>::filter, 1);
        assert(src.take(i + 1).drop_last() =~= src.take(i as int));
        if !str_eq(p[i].msg_id.as_str(), id) {
            let e = Pending { msg_id: p[i].msg_id.clone(), cell: p[i].cell };
            kept.push(e);
        }
        i = i + 1;
    }
    assert(src.take(src.len() as int) =~= src);
    *p = kept;
}

fn insert_pending(p: &mut Vec<Pending>, id: String, cell: usize)
    ensures
        final(p)@.drop_last() == pending_without(old(p)@, id@),
        final(p)@.len() > 0,
        final(p)@.last().msg_id@ == id@,
        final(p)@.last().cell == cell,
{
    remove_pending(p, id.as_str());
    p.push(Pending { msg_id: id, cell });
}

/// A registered request is found under its id, and registering does not
/// change where other ids lead.
pub proof fn law_pending_register(p: Seq<Pending>, e: Pending, other: Seq<char>)
    ensures
        pending_lookup(pending_without(p, e.msg_id@).push(e), e.msg_id@) == Some(e.cell),
        other != e.msg_id@ ==> pending_lookup(pending_without(p, e.msg_id@).push(e), other) == pending_lookup(p, other),
{
    let q = pending_without(p, e.msg_id@).push(e);
    assert(q.drop_last() =~= pending_without(p, e.msg_id@));
    if other != e.msg_id@ {
        lemma_lookup_without(p, e.msg_id@, other);
    }
}

proof fn lemma_lookup_without(p: Seq<Pending>, id: Seq<char>, other: Seq<char>)
    requires
        other != id,
    ensures
        pending_lookup(pending_without(p, id), other) == pending_lookup(p, other),
        pending_lookup(pending_without(p, id), id) is None,
    decreases p.len(),
{
    reveal_with_fuel(Seq::<_>::filter, 1);
    if p.len() > 0 {
        lemma_lookup_without(p.drop_last(), id, other);
        let w = pending_without(p, id);
        if p.last().msg_id@ != id {
            assert(w.drop_last() =~= pending_without(p.drop_last(), id));
        } else {
            assert(w =~= pending_without(p.drop_last(), id));
        }
    }
}

/// Once a request is settled, its id leads nowhere; other ids are
/// unaffected.
pub proof fn law_pending_settle(p: Seq<Pending>, id: Seq<char>, other: Seq<char>)
    ensures
        pending_lookup(pending_without(p, id), id) is None,
        other != id ==> pending_lookup(pending_without(p, id), other) == pending_lookup(p, other),
{
    if other != id {
        lemma_lookup_without(p, id, other);
    } else {
        assert(id.push('x').len() != id.len());
        lemma_lookup_without(p, id, id.push('x'));
    }
}

// ------------------------------------------------------------------------
// Kernel messages
// ------------------------------------------------------------------------

/// The kernel of a tab.
#[derive(Debug)]
pub enum KernelState<H> {
    Launching,
    Ready { handle: H, busy: bool },
    Dead { reason: String },
}

/// The kernel's execution state as a status message reports it.
#[derive(Debug, Clone, Copy, PartialEq, Eq, Structural)]
pub enum ExecState {
    Busy,
    Idle,
    /// starting, restarting, terminating, ...
    Other,
}

#[derive(Debug, Clone, Copy, PartialEq, Eq, Structural)]
pub enum StreamName {
    Stdout,
    Stderr,
}

pub open spec fn stream_name(n: StreamName) -> Seq<char> {
    match n {
        StreamName::Stdout => "stdout"@,
        StreamName::Stderr => "stderr"@,
    }
}

/// What an IOPub message says, as far as a notebook tab cares.
#[derive(Debug)]
pub enum IoPubContent {
    Status(ExecState),
    Stream { name: StreamName, text: String },
    ExecuteInput { execution_count: usize },
    ExecuteResult { data: Media, execution_count: usize },
    DisplayData { data: Media },
    Error { ename: String, evalue: String, traceback: Vec<String> },
    Other,
}

/// An IOPub message: the id of the request it answers, and its content.
#[derive(Debug)]
pub struct IoPub {
    pub parent: Option<String>,
    pub content: IoPubContent,
}

/// What a message from the kernel's task brings.
#[derive(Debug)]
pub enum KernelMsg<H> {
    /// The kernel is up; `kernel_name` is the name in its connection info.
    Ready { handle: H, kernel_name: Option<String> },
    /// The kernel could not be started.
    Failed(String),
    /// The kernel process ended with this exit code.
    Exited(Option<i32>),
    /// An execute_reply on the shell channel.
    ExecuteReply { parent: Option<String>, execution_count: usize },
    /// Any other shell reply.
    OtherReply,
    /// A message on the IOPub channel.
    IoPub(IoPub),
}

pub open spec fn parent_view(p: Option<String>) -> Option<Seq<char>> {
    match p {
        Some(s) => Some(s@),
        None => None,
    }
}

/// The cell that a message about request `parent` concerns.
pub open spec fn target_cell(p: Seq<Pending>, parent: Option<Seq<char>>) -> Option<usize> {
    match parent {
        Some(id) => pending_lookup(p, id),
        None => None,
    }
}

/// A non-status IOPub message applied to its cell.
pub open spec fn apply_iopub(cell: CellView, content: IoPubContent) -> CellView {
    match content {
        IoPubContent::Stream { name, text } => CellView {
            outputs: with_stream(cell.outputs, stream_name(name), text@),
            ..cell
        },
        IoPubContent::ExecuteInput { execution_count } => CellView {
            execution_count: Some(execution_count as i32),
            ..cell
        },
        IoPubContent::ExecuteResult { data, execution_count } => CellView {
            outputs: cell.outputs.push(OutputView::Data {
                media: data,
                execution_count: Some(execution_count),
                rendered: prepared(media_contents(data)),
            }),
            ..cell
        },
        IoPubContent::DisplayData { data } => CellView {
            outputs: cell.outputs.push(OutputView::Data {
                media: data,
                execution_count: None,
                rendered: prepared(media_contents(data)),
            }),
            ..cell
        },
        IoPubContent::Error { ename, evalue, traceback } => CellView {
            outputs: cell.outputs.push(OutputView::Error {
                ename: ename@,
                evalue: evalue@,
                traceback: crate::model::strings_view(traceback@),
            }),
            ..cell
        },
        _ => cell,
    }
}

/// A status message updates the busy flag of a ready kernel.
pub open spec fn kernel_after_status<H>(k: KernelState<H>, st: ExecState) -> KernelState<H> {
    match k {
        KernelState::Ready { handle, busy } => KernelState::Ready { handle, busy: st == ExecState::Busy },
        other => other,
    }
}

/// The cells with cell `i` replaced, when `i` is a cell.
pub open spec fn update_cell(cells: Seq<CellView>, i: Option<usize>, f: spec_fn(CellView) -> CellView) -> Seq<CellView> {
    match i {
        Some(i) => if i < cells.len() { cells.update(i as int, f(cells[i as int])) } else { cells },
        None => cells,
    }
}

/// `exited (code Some(n))` / `exited (code None)`.
pub open spec fn exit_reason(code: Option<i32>) -> Seq<char> {
    match code {
        Some(n) => "exited (code Some("@ + decimal(n as int) + "))"@,
        None => "exited (code None)"@,
    }
}

/// What running a cell amounts to.
#[derive(Debug, Clone)]
pub enum RunDecision {
    /// A markdown cell was rendered (no kernel involved).
    MarkdownRendered,
    /// The kernel is not ready; the status line says so.
    KernelNotReady,
    /// No such cell, or a raw cell: nothing happens.
    Skipped,
    /// Send an execute request with this code, then call
    /// `begin_execution` with the request's message id.
    Execute { code: String },
}

/// The syntax-highlighting token for a notebook language (already
/// lowercased).
pub open spec fn token_for(language: Seq<char>) -> Seq<char> {
    if language == "python"@ || language == "mojo"@ {
        "python"@
    } else if language == "julia"@ {
        "julia"@
    } else if language == "rust"@ {
        "rust"@
    } else if language == "r"@ {
        "r"@
    } else if language == "markdown"@ {
        "markdown"@
    } else {
        "txt"@
    }
}

/// The notebook's language: `language_info.name`, else the kernelspec's
/// language, else python.
pub open spec fn notebook_language(info_name: Option<Seq<char>>, kernel_language: Option<Seq<char>>) -> Seq<char> {
    match info_name {
        Some(n) => n,
        None => match kernel_language {
            Some(l) => l,
            None => "python"@,
        },
    }
}

/// Maps a notebook's language to a syntax token the highlighter accepts.
/// Mojo is a Python superset; the default syntax set has no Mojo grammar.
pub fn language_token_for(info_name: Option<String>, kernel_language: Option<String>) -> (res: String)
    ensures
        res@ == token_for(lowercase(notebook_language(parent_view(info_name), parent_view(kernel_language)))),
{
    let language = match info_name {
        Some(n) => n,
        None => match kernel_language {
            Some(l) => l,
            None => "python".to_owned(),
        },
    };
    let lower = to_lowercase(language.as_str());
    token_for_lowercase(lower.as_str())
}

/// The highlighting token for an already lowercased language.
pub fn token_for_lowercase(l: &str) -> (res: String)
    ensures
        res@ == token_for(l@),
{
    if str_eq(l, "python") || str_eq(l, "mojo") {
        "python".to_owned()
    } else if str_eq(l, "julia") {
        "julia".to_owned()
    } else if str_eq(l, "rust") {
        "rust".to_owned()
    } else if str_eq(l, "r") {
        "r".to_owned()
    } else if str_eq(l, "markdown") {
        "markdown".to_owned()
    } else {
        "txt".to_owned()
    }
}

/// The highlighting token of a document (from its metadata).
pub fn language_token(doc: &NotebookDoc) -> (res: String)
    ensures
        res@ == token_for(lowercase(notebook_language(
            language_info_name_of(doc.metadata),
            kernelspec_language_of(doc.metadata),
        ))),
{
    language_token_for(language_info_name(&doc.metadata), kernelspec_language(&doc.metadata))
}

// ------------------------------------------------------------------------
// The tab
// ------------------------------------------------------------------------

/// A notebook tab: the document, its kernel, and the requests in flight.
#[derive(Debug)]
pub struct NotebookTab<H> {
    pub doc: NotebookDoc,
    pub kernel: KernelState<H>,
    /// execute_request msg_id -> cell index, for routing kernel messages.
    pub pending: Vec<Pending>,
    /// Syntax token for highlighting cell sources.
    pub language: String,
    pub kernel_label: String,
}

fn replace_cell(cells: &mut Vec<CellState>, i: usize, cell: CellState)
    requires
        i < old(cells)@.len(),
    ensures
        final(cells)@ == old(cells)@.update(i as int, cell),
{
    cells.remove(i);
    cells.insert(i, cell);
    assert(cells@ =~= old(cells)@.update(i as int, cell));
}

proof fn lemma_cells_view_update(cells: Seq<CellState>, i: int, c: CellState)
    requires
        0 <= i < cells.len(),
    ensures
        cells_view(cells.update(i, c)) == cells_view(cells).update(i, c@),
{
    assert(cells_view(cells.update(i, c)) =~= cells_view(cells).update(i, c@));
}

impl<H> NotebookTab<H> {
    /// A tab for a freshly opened or created document; its kernel is
    /// being launched.
    pub fn new(doc: NotebookDoc) -> (tab: Self)
        ensures
            tab.doc == doc,
            tab.kernel is Launching,
            tab.pending@.len() == 0,
            tab.kernel_label@ == "starting..."@,
            tab.language@ == token_for(lowercase(notebook_language(
                language_info_name_of(doc.metadata),
                kernelspec_language_of(doc.metadata),
            ))),
    {
        let language = language_token(&doc);
        NotebookTab { doc, kernel: KernelState::Launching, pending: Vec::new(), language, kernel_label: "starting...".to_owned() }
    }

    /// The kernel name the notebook asks for (its kernelspec), if any.
    pub fn preferred_kernel(&self) -> (res: Option<String>)
        ensures
            match res {
                Some(s) => kernelspec_name_of(self.doc.metadata) == Some(s@),
                None => kernelspec_name_of(self.doc.metadata) is None,
            },
    {
        kernelspec_name(&self.doc.metadata)
    }

    /// The label of the kernel indicator.
    pub fn indicator_label(&self) -> (res: String)
        ensures
            res@ == match self.kernel {
                KernelState::Launching => "starting..."@,
                KernelState::Ready { .. } => self.kernel_label@,
                KernelState::Dead { .. } => "dead"@,
            },
    {
        match &self.kernel {
            KernelState::Launching => "starting...".to_owned(),
            KernelState::Ready { .. } => self.kernel_label.clone(),
            KernelState::Dead { .. } => "dead".to_owned(),
        }
    }

    /// Whether the kernel is busy; `None` unless it is ready.
    pub fn indicator_busy(&self) -> (res: Option<bool>)
        ensures
            res == match self.kernel {
                KernelState::Ready { busy, .. } => Some(busy),
                _ => None,
            },
    {
        match &self.kernel {
            KernelState::Ready { busy, .. } => Some(*busy),
            _ => None,
        }
    }

    /// The handle of a ready kernel (for interrupting it).
    pub fn ready_handle(&self) -> (res: Option<&H>)
        ensures
            match self.kernel {
                KernelState::Ready { handle, .. } => res == Some(&handle),
                _ => res is None,
            },
    {
        match &self.kernel {
            KernelState::Ready { handle, .. } => Some(handle),
            _ => None,
        }
    }

    /// Runs cell `index`: a markdown cell is rendered; a code cell is
    /// executed when the kernel is ready.
    pub fn run_cell(&mut self, index: usize, status_line: &mut String) -> (res: RunDecision)
        ensures
            index < old(self).doc.cells@.len() && old(self).doc.cells@[index as int].kind is Markdown ==> {
                &&& res is MarkdownRendered
                &&& cells_view(final(self).doc.cells@) == cells_view(old(self).doc.cells@).update(index as int, CellView {
                        kind: KindView::Markdown { rendered: old(self).doc.cells@[index as int].source@, editing: false },
                        ..old(self).doc.cells@[index as int]@
                    })
                &&& *final(status_line) == *old(status_line)
            },
            !(index < old(self).doc.cells@.len() && old(self).doc.cells@[index as int].kind is Markdown) ==> {
                &&& cells_view(final(self).doc.cells@) == cells_view(old(self).doc.cells@)
                &&& (!(old(self).kernel is Ready) ==> res is KernelNotReady && final(status_line)@ == "kernel not ready"@)
                &&& (old(self).kernel is Ready ==> *final(status_line) == *old(status_line))
                &&& (old(self).kernel is Ready && index >= old(self).doc.cells@.len() ==> res is Skipped)
                &&& (old(self).kernel is Ready && index < old(self).doc.cells@.len() ==> match res {
                        RunDecision::Execute { code } => old(self).doc.cells@[index as int].kind is Code
                            && code@ == old(self).doc.cells@[index as int].source@,
                        RunDecision::Skipped => old(self).doc.cells@[index as int].kind is Raw,
                        _ => false,
                    })
            },
            final(self).kernel == old(self).kernel,
            final(self).pending == old(self).pending,
            final(self).doc.dirty == old(self).doc.dirty,
            final(self).doc.path == old(self).doc.path,
            final(self).doc.metadata == old(self).doc.metadata,
            final(self).doc.nbformat_minor == old(self).doc.nbformat_minor,
            final(self).language == old(self).language,
            final(self).kernel_label == old(self).kernel_label,
    {
        let n = self.doc.cells.len();
        if index < n {
            let is_markdown = matches!(self.doc.cells[index].kind, CellKind::Markdown { .. });
            if is_markdown {
                let ghost before = self.doc.cells@;
                let mut cell = self.doc.cells.remove(index);
                assert(cell == before[index as int]);
                cell.kind = CellKind::Markdown { rendered: cell.source.clone(), editing: false };
                self.doc.cells.insert(index, cell);
                proof {
                    assert(self.doc.cells@ =~= before.update(index as int, cell));
                    lemma_cells_view_update(before, index as int, cell);
                }
                return RunDecision::MarkdownRendered;
            }
        }
        let ready = matches!(self.kernel, KernelState::Ready { .. });
        if !ready {
            *status_line = "kernel not ready".to_owned();
            return RunDecision::KernelNotReady;
        }
        if index >= n {
            return RunDecision::Skipped;
        }
        if !self.doc.cells[index].is_code() {
            return RunDecision::Skipped;
        }
        RunDecision::Execute { code: self.doc.cells[index].source_text() }
    }

    /// Records that the execute request `msg_id` runs cell `index`: its
    /// outputs are cleared, it is marked running, the document is dirty.
    pub fn begin_execution(&mut self, index: usize, msg_id: String)
        requires
            index < old(self).doc.cells@.len(),
        ensures
            final(self).pending@.drop_last() == pending_without(old(self).pending@, msg_id@),
            final(self).pending@.len() > 0,
            final(self).pending@.last().msg_id@ == msg_id@,
            final(self).pending@.last().cell == index,
            cells_view(final(self).doc.cells@) == cells_view(old(self).doc.cells@).update(index as int, CellView {
                outputs: Seq::empty(),
                running: true,
                ..old(self).doc.cells@[index as int]@
            }),
            final(self).doc.dirty,
            final(self).kernel == old(self).kernel,
            final(self).doc.path == old(self).doc.path,
            final(self).doc.metadata == old(self).doc.metadata,
            final(self).doc.nbformat_minor == old(self).doc.nbformat_minor,
    {
        insert_pending(&mut self.pending, msg_id, index);
        let ghost before = self.doc.cells@;
        let mut cell = self.doc.cells.remove(index);
        assert(cell == before[index as int]);
        cell.outputs = Vec::new();
        cell.running = true;
        self.doc.cells.insert(index, cell);
        proof {
            assert(self.doc.cells@ =~= before.update(index as int, cell));
            lemma_cells_view_update(before, index as int, cell);
            assert(outputs_view(cell.outputs@) =~= Seq::<OutputView>::empty());
        }
        self.doc.dirty = true;
    }

    /// The source of cell `index` was edited to `source`.
    pub fn edit_cell(&mut self, index: usize, source: String)
        ensures
            index < old(self).doc.cells@.len() ==> {
                &&& cells_view(final(self).doc.cells@) == cells_view(old(self).doc.cells@).update(index as int, CellView {
                        source: source@,
                        ..old(self).doc.cells@[index as int]@
                    })
                &&& final(self).doc.dirty
            },
            index >= old(self).doc.cells@.len() ==> final(self).doc == old(self).doc,
            final(self).kernel == old(self).kernel,
            final(self).pending == old(self).pending,
            final(self).doc.path == old(self).doc.path,
            final(self).doc.metadata == old(self).doc.metadata,
            final(self).doc.nbformat_minor == old(self).doc.nbformat_minor,
    {
        if index < self.doc.cells.len() {
            let ghost before = self.doc.cells@;
            let mut cell = self.doc.cells.remove(index);
            assert(cell == before[index as int]);
            cell.source = source;
            self.doc.cells.insert(index, cell);
            proof {
                assert(self.doc.cells@ =~= before.update(index as int, cell));
                lemma_cells_view_update(before, index as int, cell);
            }
            self.doc.dirty = true;
        }
    }

    /// Opens the source editor of a markdown cell.
    pub fn edit_markdown(&mut self, index: usize)
        ensures
            index < old(self).doc.cells@.len() ==> match old(self).doc.cells@[index as int].kind {
                CellKind::Markdown { rendered, .. } => cells_view(final(self).doc.cells@) == cells_view(old(self).doc.cells@).update(
                    index as int,
                    CellView { kind: KindView::Markdown { rendered: rendered@, editing: true }, ..old(self).doc.cells@[index as int]@ },
                ),
                _ => cells_view(final(self).doc.cells@) == cells_view(old(self).doc.cells@),
            },
            index >= old(self).doc.cells@.len() ==> cells_view(final(self).doc.cells@) == cells_view(old(self).doc.cells@),
            final(self).doc.dirty == old(self).doc.dirty,
            final(self).kernel == old(self).kernel,
            final(self).pending == old(self).pending,
    {
        if index < self.doc.cells.len() {
            let is_markdown = matches!(self.doc.cells[index].kind, CellKind::Markdown { .. });
            if is_markdown {
                let ghost before = self.doc.cells@;
                let mut cell = self.doc.cells.remove(index);
                assert(cell == before[index as int]);
                let rendered = match &cell.kind {
                    CellKind::Markdown { rendered, .. } => rendered.clone(),
                    _ => String::new(),
                };
                cell.kind = CellKind::Markdown { rendered, editing: true };
                self.doc.cells.insert(index, cell);
                proof {
                    assert(self.doc.cells@ =~= before.update(index as int, cell));
                    lemma_cells_view_update(before, index as int, cell);
                }
            }
        }
    }

    /// Restarts the kernel: the old kernel (if ready) is handed back to be
    /// shut down, requests in flight are forgotten, no cell is running any
    /// more, and a new kernel is being launched.
    pub fn restart(&mut self) -> (old_handle: Option<H>)
        ensures
            match old(self).kernel {
                KernelState::Ready { handle, .. } => old_handle == Some(handle),
                _ => old_handle is None,
            },
            final(self).kernel is Launching,
            final(self).pending@.len() == 0,
            final(self).doc.cells@.len() == old(self).doc.cells@.len(),
            forall|k: int| 0 <= k < final(self).doc.cells@.len() ==> (#[trigger] final(self).doc.cells@[k])@ == (CellView {
                running: false,
                ..old(self).doc.cells@[k]@
            }),
            final(self).doc.dirty == old(self).doc.dirty,
            final(self).doc.path == old(self).doc.path,
            final(self).doc.metadata == old(self).doc.metadata,
    {
        let mut k = KernelState::Launching;
        std::mem::swap(&mut k, &mut self.kernel);
        let old_handle = match k {
            KernelState::Ready { handle, .. } => Some(handle),
            _ => None,
        };
        self.pending = Vec::new();
        let ghost before = self.doc.cells@;
        let ghost dirty = self.doc.dirty;
        let ghost path = self.doc.path;
        let ghost metadata = self.doc.metadata;
        let n = self.doc.cells.len();
        let mut i: usize = 0;
        while i < n
            invariant
                self.kernel is Launching,
                self.pending@.len() == 0,
                self.doc.dirty == dirty,
                self.doc.path == path,
                self.doc.metadata == metadata,
                n == before.len(),
                self.doc.cells@.len() == n,
                i <= n,
                forall|j: int| 0 <= j < i ==> (#[trigger] self.doc.cells@[j])@ == (CellView { running: false, ..before[j]@ }),
                forall|j: int| i <= j < n ==> #[trigger] self.doc.cells@[j] == before[j],
            decreases n - i,
        {
            let ghost cur = self.doc.cells@;
            let mut cell = self.doc.cells.remove(i);
            assert(cell == before[i as int]);
            cell.running = false;
            self.doc.cells.insert(i, cell);
            assert(self.doc.cells@ =~= cur.update(i as int, cell));
            i = i + 1;
        }
        old_handle
    }

    /// Handles a message from the kernel's task.
    pub fn on_kernel_msg(&mut self, msg: KernelMsg<H>)
        ensures
            match msg {
                KernelMsg::Ready { handle, kernel_name } => {
                    &&& final(self).kernel == (KernelState::Ready { handle, busy: false })
                    &&& final(self).kernel_label@ == match kernel_name {
                            Some(n) => n@,
                            None => "kernel"@,
                        }
                    &&& final(self).doc == old(self).doc
                    &&& final(self).pending == old(self).pending
                },
                KernelMsg::Failed(e) => {
                    &&& final(self).kernel == (KernelState::<H>::Dead { reason: e })
                    &&& final(self).doc == old(self).doc
                    &&& final(self).pending == old(self).pending
                },
                KernelMsg::Exited(code) => {
                    &&& (old(self).kernel is Launching ==> final(self).kernel == old(self).kernel)
                    &&& (!(old(self).kernel is Launching) ==> (final(self).kernel matches KernelState::Dead { reason }
                            && reason@ == exit_reason(code)))
                    &&& final(self).doc == old(self).doc
                    &&& final(self).pending == old(self).pending
                },
                KernelMsg::ExecuteReply { parent, execution_count } => {
                    &&& cells_view(final(self).doc.cells@) == update_cell(
                            cells_view(old(self).doc.cells@),
                            target_cell(old(self).pending@, parent_view(parent)),
                            |c: CellView| CellView { execution_count: Some(execution_count as i32), ..c },
                        )
                    &&& final(self).kernel == old(self).kernel
                    &&& final(self).pending == old(self).pending
                    &&& final(self).doc.dirty == old(self).doc.dirty
                },
                KernelMsg::OtherReply => *final(self) == *old(self),
                KernelMsg::IoPub(m) => iopub_effect(*old(self), m, *final(self)),
            },
    {
        match msg {
            KernelMsg::Ready { handle, kernel_name } => {
                self.kernel_label = match kernel_name {
                    Some(n) => n,
                    None => "kernel".to_owned(),
                };
                self.kernel = KernelState::Ready { handle, busy: false };
            },
            KernelMsg::Failed(e) => {
                self.kernel = KernelState::Dead { reason: e };
            },
            KernelMsg::Exited(code) => {
                if !matches!(self.kernel, KernelState::Launching) {
                    let mut reason = String::new();
                    match code {
                        Some(n) => {
                            push_str(&mut reason, "exited (code Some(");
                            push_decimal(&mut reason, n as i64);
                            push_str(&mut reason, "))");
                            assert(reason@ =~= exit_reason(code));
                        },
                        None => {
                            push_str(&mut reason, "exited (code None)");
                            assert(reason@ =~= exit_reason(code));
                        },
                    }
                    self.kernel = KernelState::Dead { reason };
                }
            },
            KernelMsg::ExecuteReply { parent, execution_count } => {
                let target = match &parent {
                    Some(id) => lookup_pending(&self.pending, id.as_str()),
                    None => None,
                };
                if let Some(i) = target {
                    if i < self.doc.cells.len() {
                        let ghost before = self.doc.cells@;
                        let mut cell = self.doc.cells.remove(i);
                        assert(cell == before[i as int]);
                        cell.execution_count = Some(execution_count as i32);
                        self.doc.cells.insert(i, cell);
                        proof {
                            assert(self.doc.cells@ =~= before.update(i as int, cell));
                            lemma_cells_view_update(before, i as int, cell);
                        }
                    }
                }
            },
            KernelMsg::OtherReply => {},
            KernelMsg::IoPub(m) => self.on_iopub(m),
        }
    }

    /// Handles an IOPub message: status messages track the kernel's busy
    /// state and, on idle, settle the request; other messages add to the
    /// outputs of the cell whose request they answer.
    pub fn on_iopub(&mut self, msg: IoPub)
        ensures
            iopub_effect(*old(self), msg, *final(self)),
            target_cell(old(self).pending@, parent_view(msg.parent)) matches Some(i) ==> i < old(self).doc.cells@.len() ==> {
                let before = cells_view(old(self).doc.cells@)[i as int];
                let after = cells_view(final(self).doc.cells@)[i as int];
                &&& cells_view(final(self).doc.cells@).len() == cells_view(old(self).doc.cells@).len()
                &&& forall|j: int| 0 <= j < cells_view(old(self).doc.cells@).len() && j != i
                    ==> #[trigger] cells_view(final(self).doc.cells@)[j] == cells_view(old(self).doc.cells@)[j]
                &&& (msg.content matches IoPubContent::Status(st) ==> after == (if st == ExecState::Idle {
                    CellView { running: false, ..before }
                } else {
                    before
                }))
                &&& (msg.content matches IoPubContent::Stream { name, text } ==> after == (CellView {
                    outputs: with_stream(before.outputs, if name == StreamName::Stdout { "stdout"@ } else { "stderr"@ }, text@),
                    ..before
                }))
                &&& (msg.content matches IoPubContent::Error { ename, evalue, traceback } ==> after == (CellView {
                    outputs: before.outputs.push(OutputView::Error {
                        ename: ename@,
                        evalue: evalue@,
                        traceback: traceback@.map_values(|t: String| t@),
                    }),
                    ..before
                }))
                &&& (msg.content matches IoPubContent::ExecuteResult { data, execution_count } ==> after == (CellView {
                    outputs: before.outputs.push(OutputView::Data {
                        media: data,
                        execution_count: Some(execution_count),
                        rendered: prepared(media_contents(data)),
                    }),
                    ..before
                }))
                &&& (msg.content matches IoPubContent::DisplayData { data } ==> after == (CellView {
                    outputs: before.outputs.push(OutputView::Data {
                        media: data,
                        execution_count: None,
                        rendered: prepared(media_contents(data)),
                    }),
                    ..before
                }))
                &&& (msg.content matches IoPubContent::ExecuteInput { execution_count } ==> after == (CellView {
                    execution_count: Some(execution_count as i32),
                    ..before
                }))
            },
    {
        let target = match &msg.parent {
            Some(id) => lookup_pending(&self.pending, id.as_str()),
            None => None,
        };
        let ghost before = self.doc.cells@;
        match msg.content {
            IoPubContent::Status(st) => {
                match &mut self.kernel {
                    KernelState::Ready { busy, .. } => {
                        *busy = st == ExecState::Busy;
                    },
                    _ => {},
                }
                if st == ExecState::Idle {
                    if let Some(i) = target {
                        if let Some(id) = &msg.parent {
                            remove_pending(&mut self.pending, id.as_str());
                        }
                        if i < self.doc.cells.len() {
                            let mut cell = self.doc.cells.remove(i);
                            assert(cell == before[i as int]);
                            cell.running = false;
                            self.doc.cells.insert(i, cell);
                            proof {
                                assert(self.doc.cells@ =~= before.update(i as int, cell));
                                lemma_cells_view_update(before, i as int, cell);
                            }
                        }
                    }
                }
                return;
            },
            content => {
                let i = match target {
                    Some(i) => i,
                    None => return,
                };
                if i >= self.doc.cells.len() {
                    return;
                }
                let mut cell = self.doc.cells.remove(i);
                assert(cell == before[i as int]);
                let ghost old_cell = cell@;
                match content {
                    IoPubContent::Stream { name, text } => {
                        let n = match name {
                            StreamName::Stdout => "stdout",
                            StreamName::Stderr => "stderr",
                        };
                        cell.push_stream(n, text.as_str());
                    },
                    IoPubContent::ExecuteInput { execution_count } => {
                        cell.execution_count = Some(execution_count as i32);
                    },
                    IoPubContent::ExecuteResult { data, execution_count } => {
                        let rendered = render::prepare(&data);
                        let ghost prev = cell.outputs@;
                        let out = CellOutput::Data { media: data, execution_count: Some(execution_count), rendered };
                        cell.outputs.push(out);
                        assert(outputs_view(cell.outputs@) =~= outputs_view(prev).push(out@));
                    },
                    IoPubContent::DisplayData { data } => {
                        let rendered = render::prepare(&data);
                        let ghost prev = cell.outputs@;
                        let out = CellOutput::Data { media: data, execution_count: None, rendered };
                        cell.outputs.push(out);
                        assert(outputs_view(cell.outputs@) =~= outputs_view(prev).push(out@));
                    },
                    IoPubContent::Error { ename, evalue, traceback } => {
                        let ghost prev = cell.outputs@;
                        let out = CellOutput::Error { ename, evalue, traceback };
                        cell.outputs.push(out);
                        assert(outputs_view(cell.outputs@) =~= outputs_view(prev).push(out@));
                    },
                    _ => {},
                }
                self.doc.cells.insert(i, cell);
                proof {
                    assert(self.doc.cells@ =~= before.update(i as int, cell));
                    lemma_cells_view_update(before, i as int, cell);
                }
            },
        }
    }
}

/// What saving a tab amounts to.
#[derive(Debug)]
pub enum SavePlan {
    /// The notebook has no path yet: ask the user for one.
    AskPath,
    /// Write this text to this path (the document is now clean).
    Write { path: String, json: String },
    /// Serialization failed; the message is for the status line.
    Failed(String),
}

impl<H> NotebookTab<H> {
    /// Prepares saving: without a path the user is asked for one;
    /// otherwise the document is serialized and, on success, marked clean.
    pub fn prepare_save(&mut self) -> (res: SavePlan)
        ensures
            old(self).doc.path is None ==> res is AskPath && *final(self) == *old(self),
            old(self).doc.path matches Some(p) ==> match res {
                SavePlan::Write { path, json } => path == p && !final(self).doc.dirty
                    && notebook_json(old(self).doc.metadata, saved_minor(old(self).doc.nbformat_minor),
                        saved_cells(old(self).doc)) == Ok::<Seq<char>, Seq<char>>(json@)
                    && final(self).doc == (NotebookDoc { dirty: false, ..old(self).doc }),
                SavePlan::Failed(m) => *final(self) == *old(self)
                    && exists|msg: Seq<char>| #[trigger] notebook_json(old(self).doc.metadata,
                        saved_minor(old(self).doc.nbformat_minor), saved_cells(old(self).doc))
                        == Err::<Seq<char>, Seq<char>>(msg) && m@ == "serialize failed: "@ + msg,
                SavePlan::AskPath => false,
            },
            final(self).kernel == old(self).kernel,
            final(self).pending == old(self).pending,
            final(self).language == old(self).language,
            final(self).kernel_label == old(self).kernel_label,
    {
        let path = match &self.doc.path {
            Some(p) => p.clone(),
            None => return SavePlan::AskPath,
        };
        match save(&self.doc) {
            Ok(json) => {
                self.doc.dirty = false;
                SavePlan::Write { path, json }
            },
            Err(e) => {
                let mut m = "serialize failed: ".to_owned();
                let ghost prefix = m@;
                push_str(&mut m, e.message.as_str());
                assert(m@ == "serialize failed: "@ + e.message@);
                SavePlan::Failed(m)
            },
        }
    }
}

/// A new, unsaved notebook with one empty code cell, set up for the given
/// kernel (its kernelspec recorded in the metadata) when there is one.
pub fn new_notebook_doc(spec: Option<&KernelSpecInfo>) -> (doc: NotebookDoc)
    ensures
        doc.path is None,
        doc.nbformat_minor == 5,
        doc.dirty,
        doc.cells@.len() == 1,
        doc.cells@[0].kind is Code,
        doc.cells@[0].source@.len() == 0,
        doc.cells@[0].outputs@.len() == 0,
        !doc.cells@[0].running,
        doc.cells@[0].execution_count is None,
        language_info_name_of(doc.metadata) is None,
        match spec {
            Some(s) => {
                &&& kernelspec_name_of(doc.metadata) == Some(s.name@)
                &&& kernelspec_display_name_of(doc.metadata) == Some(s.display_name@)
                &&& kernelspec_language_of(doc.metadata) == Some(s.language@)
            },
            None => {
                &&& kernelspec_name_of(doc.metadata) is None
                &&& kernelspec_display_name_of(doc.metadata) is None
                &&& kernelspec_language_of(doc.metadata) is None
            },
        },
{
    let metadata = match spec {
        Some(s) => metadata_for_kernel(s.display_name.clone(), s.name.clone(), s.language.clone()),
        None => default_metadata(),
    };
    let mut cells = Vec::new();
    cells.push(new_code_cell());
    NotebookDoc { path: None, metadata, nbformat_minor: 5, cells, dirty: true }
}

/// The first tab (of those given with their notebook paths) that shows the
/// notebook at `path`.
pub open spec fn tab_for_path(tabs: Seq<(u64, Option<String>)>, path: Seq<char>) -> Option<u64>
    decreases tabs.len(),
{
    if tabs.len() == 0 {
        None
    } else if tabs[0].1 matches Some(q) && q@ == path {
        Some(tabs[0].0)
    } else {
        tab_for_path(tabs.drop_first(), path)
    }
}

/// The tab (of those given with their notebook paths) that already shows
/// the notebook at `path`, if any (the first one).
pub fn find_tab_with_path(tabs: &Vec<(u64, Option<String>)>, path: &str) -> (res: Option<u64>)
    ensures
        res == tab_for_path(tabs@, path@),
        match res {
            Some(id) => exists|k: int| 0 <= k < tabs@.len() && tabs@[k].0 == id
                && (tabs@[k].1 matches Some(p) && p@ == path@)
                && forall|j: int| 0 <= j < k ==> !((#[trigger] tabs@[j]).1 matches Some(q) && q@ == path@),
            None => forall|j: int| 0 <= j < tabs@.len() ==> !((#[trigger] tabs@[j]).1 matches Some(q) && q@ == path@),
        },
{
    let mut i: usize = 0;
    assert(tabs@.skip(0) =~= tabs@);
    while i < tabs.len()
        invariant
            i <= tabs@.len(),
            forall|j: int| 0 <= j < i ==> !((#[trigger] tabs@[j]).1 matches Some(q) && q@ == path@),
            tab_for_path(tabs@, path@) == tab_for_path(tabs@.skip(i as int), path@),
        decreases tabs@.len() - i,
    {
        assert(tabs@.skip(i as int).drop_first() =~= tabs@.skip(i + 1));
        assert(tabs@.skip(i as int)[0] == tabs@[i as int]);
        let found = match &tabs[i].1 {
            Some(p) => str_eq(p.as_str(), path),
            None => false,
        };
        if found {
            return Some(tabs[i].0);
        }
        i = i + 1;
    }
    None
}

/// Opening a notebook that a tab already shows finds that tab: the search
/// gives the first tab with that path, so no second tab is opened for it.
pub proof fn law_reopen_finds_open_tab(tabs: Seq<(u64, Option<String>)>, path: Seq<char>, k: int)
    requires
        0 <= k < tabs.len(),
        tabs[k].1 matches Some(q) && q@ == path,
    ensures
        tab_for_path(tabs, path) matches Some(id) && exists|j: int| 0 <= j <= k && tabs[j].0 == id
            && ((#[trigger] tabs[j]).1 matches Some(q) && q@ == path),
    decreases k,
{
    if !(tabs[0].1 matches Some(q) && q@ == path) {
        let rest = tabs.drop_first();
        assert(rest[k - 1] == tabs[k]);
        law_reopen_finds_open_tab(rest, path, k - 1);
        let id = tab_for_path(rest, path)->0;
        let j = choose|j: int| 0 <= j <= k - 1 && rest[j].0 == id && ((#[trigger] rest[j]).1 matches Some(q) && q@ == path);
        assert(tabs[j + 1] == rest[j]);
    }
}

/// How an IOPub message changes a tab.
pub open spec fn iopub_effect<H>(old_tab: NotebookTab<H>, msg: IoPub, new_tab: NotebookTab<H>) -> bool {
    let target = target_cell(old_tab.pending@, parent_view(msg.parent));
    let old_cells = cells_view(old_tab.doc.cells@);
    &&& new_tab.doc.dirty == old_tab.doc.dirty
    &&& new_tab.doc.path == old_tab.doc.path
    &&& new_tab.doc.metadata == old_tab.doc.metadata
    &&& new_tab.doc.nbformat_minor == old_tab.doc.nbformat_minor
    &&& new_tab.language == old_tab.language
    &&& new_tab.kernel_label == old_tab.kernel_label
    &&& match msg.content {
        IoPubContent::Status(st) => {
            &&& new_tab.kernel == kernel_after_status(old_tab.kernel, st)
            &&& if st == ExecState::Idle && target is Some {
                &&& new_tab.pending@ == pending_without(old_tab.pending@, parent_view(msg.parent)->0)
                &&& cells_view(new_tab.doc.cells@) == update_cell(old_cells, target, |c: CellView| CellView { running: false, ..c })
            } else {
                &&& new_tab.pending == old_tab.pending
                &&& cells_view(new_tab.doc.cells@) == old_cells
            }
        },
        content => {
            &&& new_tab.kernel == old_tab.kernel
            &&& new_tab.pending == old_tab.pending
            &&& cells_view(new_tab.doc.cells@) == update_cell(old_cells, target, |c: CellView| apply_iopub(c, content))
        },
    }
}

} // verus!
