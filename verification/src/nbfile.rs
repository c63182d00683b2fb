//! Reading and writing notebook files through `nbformat`: the text is
//! parsed (and older formats upgraded) by `nbformat`, and the cells are
//! mapped to and from the app's cell model.

use vstd::prelude::*;
use nbformat::v4;
use nbformat::v4::{CellId, CellMetadata, Metadata};
use crate::text::concat_all;
use crate::model::{
    CellKind, CellState, CellView, KindView, NbCell, NbCellView, NbOutput, NotebookDoc, cell_from_nbformat,
    cell_from_spec, cell_to_nbformat, cell_to_spec, cells_view, nb_cells_view,
};

verus! {

#[verifier::external_type_specification]
#[verifier::external_body]
pub struct ExCellId(nbformat::v4::CellId);

#[verifier::external_type_specification]
#[verifier::external_body]
pub struct ExCellMetadata(nbformat::v4::CellMetadata);

#[verifier::external_type_specification]
#[verifier::external_body]
pub struct ExMetadata(nbformat::v4::Metadata);

#[verifier::external_type_specification]
#[verifier::external_body]
pub struct ExJsonValue(serde_json::Value);

#[verifier::external_type_specification]
#[verifier::external_body]
#[verifier::reject_recursive_types(K)]
#[verifier::reject_recursive_types(V)]
pub struct ExJsonMap<K, V>(serde_json::Map<K, V>);

/// The JSON object that `serde_json::Map` collects from these key/value
/// pairs (`FromIterator`; a later pair replaces an earlier one with the
/// same key).
pub uninterp spec fn json_object(entries: Seq<(Seq<char>, serde_json::Value)>) -> serde_json::Map<String, serde_json::Value>;

/// Collects key/value pairs into a JSON object (`Map::from_iter`).
#[verifier::external_body]
pub(crate) fn json_object_from(entries: Vec<(String, serde_json::Value)>) -> (res: serde_json::Map<String, serde_json::Value>)
    ensures
        res == json_object(entries@.map_values(|e: (String, serde_json::Value)| (e.0@, e.1))),
{
    entries.into_iter().collect()
}

#[verifier::external_type_specification]
#[verifier::external_body]
pub struct ExV4Notebook(nbformat::v4::Notebook);

#[verifier::external_type_specification]
#[verifier::external_body]
pub struct ExV4Cell(nbformat::v4::Cell);

#[verifier::external_type_specification]
#[verifier::external_body]
pub struct ExV4Output(nbformat::v4::Output);

#[verifier::external_type_specification]
#[verifier::external_body]
pub struct ExNotebookError(nbformat::NotebookError);

#[verifier::external_type_specification]
#[verifier::external_body]
pub struct ExV4Quirks(nbformat::V4Quirks);

#[verifier::external_type_specification]
#[verifier::external_body]
pub struct ExLegacyNotebook(nbformat::legacy::Notebook);

#[verifier::external_type_specification]
#[verifier::external_body]
pub struct ExV3Notebook(nbformat::v3::Notebook);

#[verifier::external_type_specification]
#[verifier::external_body]
pub struct ExAnyhowError(anyhow::Error);

// ------------------------------------------------------------------------
// Calls into nbformat
// ------------------------------------------------------------------------

/// The variants of `nbformat::Notebook` (a non-exhaustive enum).
pub enum NotebookVariant {
    V4(v4::Notebook),
    V4Quirks(nbformat::V4Quirks),
    Legacy(nbformat::legacy::Notebook),
    V3(nbformat::v3::Notebook),
    Unknown,
}

/// Which kind of notebook nbformat read from a text.
#[derive(Debug, Clone, Copy, PartialEq, Eq, Structural)]
pub enum NotebookKind {
    /// A v4.5 notebook.
    V4,
    /// A v4.5 notebook with quirks (such as missing cell ids).
    V4Quirks,
    /// A v4.0 to v4.4 notebook.
    Legacy,
    /// A v3 notebook.
    V3,
    /// A variant this version of the app does not know.
    Unknown,
}

pub open spec fn kind_of(v: NotebookVariant) -> NotebookKind {
    match v {
        NotebookVariant::V4(_) => NotebookKind::V4,
        NotebookVariant::V4Quirks(_) => NotebookKind::V4Quirks,
        NotebookVariant::Legacy(_) => NotebookKind::Legacy,
        NotebookVariant::V3(_) => NotebookKind::V3,
        NotebookVariant::Unknown => NotebookKind::Unknown,
    }
}

/// The kind of notebook `nbformat::parse_notebook` reads from this text
/// (chosen by its `nbformat` and `nbformat_minor` fields), `None` where it
/// reports an error.
pub uninterp spec fn parsed_kind(json: Seq<char>) -> Option<NotebookKind>;

/// The kind of a cell.
#[derive(Debug, Clone, Copy, PartialEq, Eq, Structural)]
pub enum CellTag {
    Code,
    Markdown,
    Raw,
}

pub open spec fn nb_cell_tag(c: NbCellView) -> CellTag {
    match c {
        NbCellView::Code { .. } => CellTag::Code,
        NbCellView::Markdown { .. } => CellTag::Markdown,
        NbCellView::Raw { .. } => CellTag::Raw,
    }
}

pub open spec fn nb_cell_lines(c: NbCellView) -> Seq<Seq<char>> {
    match c {
        NbCellView::Code { source, .. } => source,
        NbCellView::Markdown { source, .. } => source,
        NbCellView::Raw { source, .. } => source,
    }
}

pub open spec fn kind_tag(k: KindView) -> CellTag {
    match k {
        KindView::Code => CellTag::Code,
        KindView::Markdown { .. } => CellTag::Markdown,
        KindView::Raw => CellTag::Raw,
    }
}

/// For a v4.5 notebook text, each cell as `nbformat::parse_notebook`
/// reads it: its kind and its source lines (a function of the text).
pub uninterp spec fn parsed_cells(json: Seq<char>) -> Seq<(CellTag, Seq<Seq<char>>)>;

/// For a v4.5 notebook text, the minor format version that
/// `nbformat::parse_notebook` reads.
pub uninterp spec fn parsed_minor(json: Seq<char>) -> i32;

/// The parts of a v4 notebook agree with what the text says of its minor
/// version and of each cell's kind and source lines.
pub open spec fn parts_match_text(parts: (Metadata, i32, Seq<NbCellView>), json: Seq<char>) -> bool {
    &&& parts.1 == parsed_minor(json)
    &&& parts.2.len() == parsed_cells(json).len()
    &&& forall|k: int| 0 <= k < parts.2.len() ==>
            (nb_cell_tag(#[trigger] parts.2[k]), nb_cell_lines(parts.2[k])) == parsed_cells(json)[k]
}

/// `nbformat::parse_notebook`, its variants told apart. The contract
/// claims the kind read (a function of the text) and, for a v4.5 notebook
/// (strict or with quirks), its minor version and each cell's kind and
/// source lines, which nbformat deserializes from the text. Nothing more
/// is stated of the notebook: quirks mode fills missing cell ids with
/// fresh random ids, and the metadata holds hash maps.
#[verifier::external_body]
fn parse_notebook(json: &str) -> (res: Result<NotebookVariant, nbformat::NotebookError>)
    ensures
        match res {
            Ok(v) => parsed_kind(json@) == Some(kind_of(v)),
            Err(_) => parsed_kind(json@) is None,
        },
        res matches Ok(NotebookVariant::V4(nb)) ==> {
            &&& v4_parts(nb).1 == parsed_minor(json@)
            &&& v4_parts(nb).2.len() == parsed_cells(json@).len()
            &&& forall|k: int| 0 <= k < v4_parts(nb).2.len() ==>
                    (nb_cell_tag(#[trigger] v4_parts(nb).2[k]), nb_cell_lines(v4_parts(nb).2[k])) == parsed_cells(json@)[k]
        },
        res matches Ok(NotebookVariant::V4Quirks(q)) ==> {
            &&& v4_parts(repaired(q)).1 == parsed_minor(json@)
            &&& v4_parts(repaired(q)).2.len() == parsed_cells(json@).len()
            &&& forall|k: int| 0 <= k < v4_parts(repaired(q)).2.len() ==>
                    (nb_cell_tag(#[trigger] v4_parts(repaired(q)).2[k]), nb_cell_lines(v4_parts(repaired(q)).2[k]))
                        == parsed_cells(json@)[k]
        },
{
    match nbformat::parse_notebook(json) {
        Ok(nbformat::Notebook::V4(n)) => Ok(NotebookVariant::V4(n)),
        Ok(nbformat::Notebook::V4QuirksMode(q)) => Ok(NotebookVariant::V4Quirks(q)),
        Ok(nbformat::Notebook::Legacy(l)) => Ok(NotebookVariant::Legacy(l)),
        Ok(nbformat::Notebook::V3(n)) => Ok(NotebookVariant::V3(n)),
        Ok(_) => Ok(NotebookVariant::Unknown),
        Err(e) => Err(e),
    }
}

/// The v4 notebook that `V4Quirks::repair` gives: the notebook that was
/// parsed (its missing ids were filled in while parsing).
pub uninterp spec fn repaired(q: nbformat::V4Quirks) -> v4::Notebook;

/// `V4Quirks::repair`: promotes a quirky v4.5 notebook to a v4 notebook
/// (it hands back the notebook it holds).
#[verifier::external_body]
fn repair_quirks(q: nbformat::V4Quirks) -> (res: v4::Notebook)
    ensures
        res == repaired(q),
{
    q.repair()
}

/// `nbformat::upgrade_legacy_notebook` (v4.0-4.4 to v4.5; fills missing
/// cell ids with fresh random ids, fails on duplicate ids).
#[verifier::external_body]
fn upgrade_legacy(n: nbformat::legacy::Notebook) -> Result<v4::Notebook, anyhow::Error> {
    nbformat::upgrade_legacy_notebook(n)
}

/// For each cell of a v3 notebook, worksheet by worksheet, its heading
/// level when it is a heading cell.
pub uninterp spec fn v3_cell_headings(n: nbformat::v3::Notebook) -> Seq<Option<i32>>;

/// Whether every heading level of a v3 notebook is at least 0.
pub open spec fn v3_levels_ok(headings: Seq<Option<i32>>) -> bool {
    forall|k: int| 0 <= k < headings.len() ==> (#[trigger] headings[k] matches Some(l) ==> l >= 0)
}

/// Reads the cells of a v3 notebook (`worksheets`, then each worksheet's
/// `cells`), each as its heading level or `None`.
#[verifier::external_body]
fn v3_headings(n: &nbformat::v3::Notebook) -> (res: Vec<Option<i32>>)
    ensures
        res@ == v3_cell_headings(*n),
{
    n.worksheets.iter().flatten().flat_map(|w| w.cells.iter()).map(|c| match c {
        nbformat::v3::Cell::Heading { level, .. } => Some(*level),
        nbformat::v3::Cell::Markdown { .. } => None,
        nbformat::v3::Cell::Code { .. } => None,
        nbformat::v3::Cell::Raw { .. } => None,
    }).collect()
}

/// `nbformat::upgrade_v3_notebook` (v3 to v4.5, with fresh random cell
/// ids). It writes a heading of level `l` as `l` `#` characters, which
/// panics for a negative level: those notebooks are left out.
#[verifier::external_body]
fn upgrade_v3(n: nbformat::v3::Notebook) -> Result<v4::Notebook, anyhow::Error>
    requires
        v3_levels_ok(v3_cell_headings(n)),
{
    nbformat::upgrade_v3_notebook(n)
}

/// Whether every heading level is at least 0.
fn levels_ok(headings: &Vec<Option<i32>>) -> (ok: bool)
    ensures
        ok == v3_levels_ok(headings@),
{
    let mut i: usize = 0;
    while i < headings.len()
        invariant
            i <= headings@.len(),
            forall|k: int| 0 <= k < i ==> (#[trigger] headings@[k] matches Some(l) ==> l >= 0),
        decreases headings@.len() - i,
    {
        if let Some(l) = headings[i] {
            if l < 0 {
                return false;
            }
        }
        i = i + 1;
    }
    true
}

/// Reads a v4 output (`nbformat::v4::Output`) into the library's form:
/// the stream text is unwrapped from `MultilineString`, the execution count
/// from `ExecutionCount`; the other fields are moved.
#[verifier::external_body]
fn v4_output_into_parts(o: v4::Output) -> NbOutput {
    match o {
        v4::Output::Stream { name, text } => NbOutput::Stream { name, text: text.0 },
        v4::Output::DisplayData(d) => NbOutput::DisplayData { data: d.data, metadata: d.metadata },
        v4::Output::ExecuteResult(r) => NbOutput::ExecuteResult {
            execution_count: r.execution_count.0, data: r.data, metadata: r.metadata },
        v4::Output::Error(e) => NbOutput::Error { ename: e.ename, evalue: e.evalue, traceback: e.traceback },
    }
}

/// Reads a v4 cell (`nbformat::v4::Cell`) into the library's form, field
/// by field.
#[verifier::external_body]
fn v4_cell_into_parts(cell: v4::Cell) -> NbCell {
    match cell {
        v4::Cell::Code { id, metadata, execution_count, source, outputs } => NbCell::Code {
            id, metadata, execution_count, source,
            outputs: outputs.into_iter().map(v4_output_into_parts).collect(),
        },
        v4::Cell::Markdown { id, metadata, source, attachments } => NbCell::Markdown { id, metadata, source, attachments },
        v4::Cell::Raw { id, metadata, source } => NbCell::Raw { id, metadata, source },
    }
}

/// The metadata, minor version and cells (in the library's form) of a v4
/// notebook.
pub uninterp spec fn v4_parts(nb: v4::Notebook) -> (Metadata, i32, Seq<NbCellView>);

/// Splits a `v4::Notebook` into its metadata, minor version and cells.
#[verifier::external_body]
fn v4_into_parts(nb: v4::Notebook) -> (res: (Metadata, i32, Vec<NbCell>))
    ensures
        (res.0, res.1, nb_cells_view(res.2@)) == v4_parts(nb),
{
    let cells = nb.cells.into_iter().map(v4_cell_into_parts).collect();
    (nb.metadata, nb.nbformat_minor, cells)
}

/// Writes an output in nbformat's form, field by field.
#[verifier::external_body]
fn nb_output_into_v4(o: NbOutput) -> v4::Output {
    match o {
        NbOutput::Stream { name, text } => v4::Output::Stream { name, text: v4::MultilineString(text) },
        NbOutput::DisplayData { data, metadata } => v4::Output::DisplayData(v4::DisplayData { data, metadata }),
        NbOutput::ExecuteResult { execution_count, data, metadata } => v4::Output::ExecuteResult(v4::ExecuteResult {
            execution_count: jupyter_protocol::ExecutionCount(execution_count), data, metadata }),
        NbOutput::Error { ename, evalue, traceback } => v4::Output::Error(v4::ErrorOutput { ename, evalue, traceback }),
    }
}

/// Writes a cell in nbformat's form, field by field.
#[verifier::external_body]
fn nb_cell_into_v4(cell: NbCell) -> v4::Cell {
    match cell {
        NbCell::Code { id, metadata, execution_count, source, outputs } => v4::Cell::Code {
            id, metadata, execution_count, source,
            outputs: outputs.into_iter().map(nb_output_into_v4).collect(),
        },
        NbCell::Markdown { id, metadata, source, attachments } => v4::Cell::Markdown { id, metadata, source, attachments },
        NbCell::Raw { id, metadata, source } => v4::Cell::Raw { id, metadata, source },
    }
}

/// The text that `nbformat::serialize_notebook` writes for the v4 notebook
/// with this metadata, format version 4.`minor` and these cells (keys
/// sorted, one-space indent, trailing newline); where it reports an error,
/// that error's message with its causes (`{:#}` of the error as an
/// `anyhow::Error`).
pub uninterp spec fn notebook_json(metadata: Metadata, minor: i32, cells: Seq<NbCellView>) -> Result<Seq<char>, Seq<char>>;

/// `nbformat::serialize_notebook` on the v4 notebook built from these
/// parts (format version 4, the cells written by `nb_cell_into_v4`), an
/// error turned into its message with causes. The contract claims only
/// that the outcome is the serializer's for these parts (it sorts the
/// keys, so the text depends on the parts alone).
#[verifier::external_body]
fn serialize_parts(metadata: Metadata, minor: i32, cells: Vec<NbCell>) -> (res: Result<String, String>)
    ensures
        match res {
            Ok(s) => notebook_json(metadata, minor, nb_cells_view(cells@)) == Ok::<Seq<char>, Seq<char>>(s@),
            Err(m) => notebook_json(metadata, minor, nb_cells_view(cells@)) == Err::<Seq<char>, Seq<char>>(m@),
        },
{
    let cells = cells.into_iter().map(nb_cell_into_v4).collect();
    let notebook = v4::Notebook { metadata, nbformat: 4, nbformat_minor: minor, cells };
    match nbformat::serialize_notebook(&nbformat::Notebook::V4(notebook)) {
        Ok(s) => Ok(s),
        Err(e) => Err(format!("{:#}", anyhow::Error::from(e))),
    }
}

/// The message of an nbformat error with its causes (`{:#}` of the error
/// as an `anyhow::Error`).
#[verifier::external_body]
fn notebook_error_text(e: nbformat::NotebookError) -> String {
    format!("{:#}", anyhow::Error::from(e))
}

/// The message of an upgrade error with its causes (`{:#}`).
#[verifier::external_body]
fn anyhow_error_text(e: &anyhow::Error) -> String {
    format!("{e:#}")
}

/// `Metadata::clone` (derived): the copy equals the value copied.
#[verifier::external_body]
pub(crate) fn clone_metadata(m: &Metadata) -> (res: Metadata)
    ensures
        res == *m,
{
    m.clone()
}

/// A fresh cell id from a random (v4) UUID: `CellId::from(Uuid::new_v4())`.
#[verifier::external_body]
pub(crate) fn fresh_cell_id() -> CellId {
    CellId::from(uuid::Uuid::new_v4())
}

/// `CellMetadata::default()`.
#[verifier::external_body]
pub(crate) fn default_cell_metadata() -> CellMetadata {
    CellMetadata::default()
}

/// `Metadata::default()` with `kernelspec` set to the given names: the
/// kernelspec has this name, display name and language, and there is no
/// language info (the derived default leaves it `None`).
#[verifier::external_body]
pub(crate) fn metadata_for_kernel(display_name: String, name: String, language: String) -> (res: Metadata)
    ensures
        kernelspec_name_of(res) == Some(name@),
        kernelspec_display_name_of(res) == Some(display_name@),
        kernelspec_language_of(res) == Some(language@),
        language_info_name_of(res) is None,
{
    let mut metadata = Metadata::default();
    metadata.kernelspec = Some(v4::KernelSpec {
        display_name, name, language: Some(language), additional: std::collections::HashMap::new(),
    });
    metadata
}

/// `Metadata::default()` (derived): no kernelspec and no language info.
#[verifier::external_body]
pub(crate) fn default_metadata() -> (res: Metadata)
    ensures
        kernelspec_name_of(res) is None,
        kernelspec_display_name_of(res) is None,
        kernelspec_language_of(res) is None,
        language_info_name_of(res) is None,
{
    Metadata::default()
}

/// `metadata.kernelspec.name` (`None` without a kernelspec).
pub uninterp spec fn kernelspec_name_of(m: Metadata) -> Option<Seq<char>>;

/// `metadata.kernelspec.display_name` (`None` without a kernelspec).
pub uninterp spec fn kernelspec_display_name_of(m: Metadata) -> Option<Seq<char>>;

/// `metadata.kernelspec.language` (`None` without a kernelspec or without
/// a language).
pub uninterp spec fn kernelspec_language_of(m: Metadata) -> Option<Seq<char>>;

/// `metadata.language_info.name` (`None` without language info).
pub uninterp spec fn language_info_name_of(m: Metadata) -> Option<Seq<char>>;

/// Reads `metadata.kernelspec.name`; the contract names the field.
#[verifier::external_body]
pub(crate) fn kernelspec_name(m: &Metadata) -> (res: Option<String>)
    ensures
        match res {
            Some(s) => kernelspec_name_of(*m) == Some(s@),
            None => kernelspec_name_of(*m) is None,
        },
{
    m.kernelspec.as_ref().map(|k| k.name.clone())
}

/// Reads `metadata.kernelspec.language`; the contract names the field.
#[verifier::external_body]
pub(crate) fn kernelspec_language(m: &Metadata) -> (res: Option<String>)
    ensures
        match res {
            Some(s) => kernelspec_language_of(*m) == Some(s@),
            None => kernelspec_language_of(*m) is None,
        },
{
    m.kernelspec.as_ref().and_then(|k| k.language.clone())
}

/// Reads `metadata.language_info.name`; the contract names the field.
#[verifier::external_body]
pub(crate) fn language_info_name(m: &Metadata) -> (res: Option<String>)
    ensures
        match res {
            Some(s) => language_info_name_of(*m) == Some(s@),
            None => language_info_name_of(*m) is None,
        },
{
    m.language_info.as_ref().map(|l| l.name.clone())
}

// ------------------------------------------------------------------------
// Loading and saving
// ------------------------------------------------------------------------

/// Why a notebook could not be read.
#[derive(Debug, Clone)]
pub enum LoadError {
    /// The text is not a notebook nbformat accepts (the message says why).
    Parse(String),
    /// An older format could not be upgraded to v4.5.
    Upgrade(String),
    /// A notebook variant this version of nbformat added and the app does
    /// not know.
    UnsupportedVariant,
}

/// Why a notebook could not be written.
#[derive(Debug, Clone)]
pub struct SaveError {
    pub message: String,
}

/// Builds the open document from a parsed notebook's parts.
pub fn doc_from_parts(metadata: Metadata, nbformat_minor: i32, cells: Vec<NbCell>, path: Option<String>) -> (doc: NotebookDoc)
    ensures
        doc.path == path,
        doc.metadata == metadata,
        doc.nbformat_minor == nbformat_minor,
        cells_view(doc.cells@) == nb_cells_view(cells@).map_values(|c: NbCellView| cell_from_spec(c)),
        !doc.dirty,
{
    let ghost src = nb_cells_view(cells@);
    let mut rest = cells;
    let mut out: Vec<CellState> = Vec::new();
    while rest.len() > 0
        invariant
            rest@.len() <= src.len(),
            nb_cells_view(rest@) == src.skip(src.len() - rest@.len()),
            cells_view(out@) == src.take(src.len() - rest@.len()).map_values(|c: NbCellView| cell_from_spec(c)),
        decreases rest@.len(),
    {
        let ghost done = src.len() - rest@.len();
        let ghost before = rest@;
        let c = rest.remove(0);
        assert(c@ == nb_cells_view(before)[0]);
        assert(nb_cells_view(rest@) =~= nb_cells_view(before).drop_first());
        assert(src.skip(done).drop_first() =~= src.skip(done + 1));
        let cell = cell_from_nbformat(c);
        assert(src.take(done + 1) =~= src.take(done).push(src[done]));
        let ghost prev = out@;
        out.push(cell);
        assert(out@ =~= prev.push(cell));
        assert(cells_view(out@) =~= cells_view(prev).push(cell@));
        assert(src.take(done + 1).map_values(|c: NbCellView| cell_from_spec(c)) =~= src.take(done).map_values(
            |c: NbCellView| cell_from_spec(c),
        ).push(cell_from_spec(src[done])));
    }
    assert(src.take(src.len() as int) =~= src);
    NotebookDoc { path, metadata, nbformat_minor, cells: out, dirty: false }
}

/// A document opened from the parts of a v4 notebook: it remembers
/// `path`, is clean, and holds the parts' metadata, minor version and cells
/// (each as the app holds a saved cell).
pub open spec fn opened_from(doc: NotebookDoc, parts: (Metadata, i32, Seq<NbCellView>), path: String) -> bool {
    &&& doc.path == Some(path)
    &&& !doc.dirty
    &&& doc.metadata == parts.0
    &&& doc.nbformat_minor == parts.1
    &&& cells_view(doc.cells@) == parts.2.map_values(|c: NbCellView| cell_from_spec(c))
}

/// No cell of the document is running or open for editing.
pub open spec fn settled(doc: NotebookDoc) -> bool {
    &&& forall|k: int| 0 <= k < doc.cells@.len() ==> !(#[trigger] doc.cells@[k]).running
    &&& forall|k: int| 0 <= k < doc.cells@.len() ==>
            ((#[trigger] doc.cells@[k]).kind matches CellKind::Markdown { editing, .. } ==> !editing)
}

/// Opens a v4 notebook as a document.
fn open_v4(nb: v4::Notebook, path: String) -> (doc: NotebookDoc)
    ensures
        opened_from(doc, v4_parts(nb), path),
        settled(doc),
{
    let ghost whole = nb;
    let (metadata, minor, cells) = v4_into_parts(nb);
    let ghost nbc = nb_cells_view(cells@);
    let doc = doc_from_parts(metadata, minor, cells, Some(path));
    assert forall|k: int| 0 <= k < doc.cells@.len() implies !(#[trigger] doc.cells@[k]).running
        && ((doc.cells@[k]).kind matches CellKind::Markdown { editing, .. } ==> !editing) by {
        assert(cells_view(doc.cells@)[k] == doc.cells@[k]@);
        assert(nbc.map_values(|c: NbCellView| cell_from_spec(c)).len() == nbc.len());
        assert(cells_view(doc.cells@)[k] == nbc.map_values(|c: NbCellView| cell_from_spec(c))[k]);
    }
    doc
}

/// Opens what nbformat read: a v4.5 notebook as it is (a quirky one
/// repaired), an older v4 or a v3 notebook after its upgrade to v4.5
/// (failing where the upgrade fails), and no other variant.
pub fn load_variant(v: NotebookVariant, path: String) -> (res: Result<NotebookDoc, LoadError>)
    ensures
        res matches Err(LoadError::UnsupportedVariant) <==> kind_of(v) == NotebookKind::Unknown,
        res matches Err(LoadError::Upgrade(_)) ==> kind_of(v) == NotebookKind::Legacy || kind_of(v) == NotebookKind::V3,
        !(res matches Err(LoadError::Parse(_))),
        kind_of(v) == NotebookKind::V4 || kind_of(v) == NotebookKind::V4Quirks ==> res is Ok,
        v matches NotebookVariant::V4(nb) ==> res matches Ok(doc) && opened_from(doc, v4_parts(nb), path),
        v matches NotebookVariant::V4Quirks(q) ==> res matches Ok(doc) && opened_from(doc, v4_parts(repaired(q)), path),
        v matches NotebookVariant::V3(n) && !v3_levels_ok(v3_cell_headings(n)) ==> res matches Err(LoadError::Upgrade(_)),
        res matches Ok(doc) ==> settled(doc) && exists|nb: v4::Notebook| opened_from(doc, #[trigger] v4_parts(nb), path),
{
    let notebook = match v {
        NotebookVariant::V4(nb) => nb,
        NotebookVariant::V4Quirks(q) => repair_quirks(q),
        NotebookVariant::Legacy(l) => match upgrade_legacy(l) {
            Ok(nb) => nb,
            Err(e) => return Err(LoadError::Upgrade(anyhow_error_text(&e))),
        },
        NotebookVariant::V3(n) => {
            if !levels_ok(&v3_headings(&n)) {
                return Err(LoadError::Upgrade("a heading has a negative level".to_owned()));
            }
            match upgrade_v3(n) {
                Ok(nb) => nb,
                Err(e) => return Err(LoadError::Upgrade(anyhow_error_text(&e))),
            }
        },
        NotebookVariant::Unknown => return Err(LoadError::UnsupportedVariant),
    };
    let ghost g = notebook;
    let doc = open_v4(notebook, path);
    assert(opened_from(doc, v4_parts(g), path));
    Ok(doc)
}

/// Reads a notebook from its JSON text (read from `path`): the text is
/// handed to nbformat as it is; a text nbformat rejects is a parse error,
/// an unknown variant is refused, v4.5 notebooks always open, and older
/// notebooks open unless their upgrade fails (see `load_variant`). An
/// opened document is clean, remembers `path`, holds the parts of the v4
/// notebook read, and has no running cell and no markdown cell open for
/// editing.
pub fn load(json: &str, path: String) -> (res: Result<NotebookDoc, LoadError>)
    ensures
        parsed_kind(json@) is None <==> res matches Err(LoadError::Parse(_)),
        parsed_kind(json@) == Some(NotebookKind::Unknown) <==> res matches Err(LoadError::UnsupportedVariant),
        res matches Err(LoadError::Upgrade(_)) ==> parsed_kind(json@) == Some(NotebookKind::Legacy)
            || parsed_kind(json@) == Some(NotebookKind::V3),
        parsed_kind(json@) == Some(NotebookKind::V4) || parsed_kind(json@) == Some(NotebookKind::V4Quirks)
            ==> (res matches Ok(doc) && doc_matches_text(doc, json@)),
        res matches Ok(doc) ==> {
            &&& doc.path == Some(path)
            &&& !doc.dirty
            &&& settled(doc)
            &&& exists|nb: v4::Notebook| opened_from(doc, #[trigger] v4_parts(nb), path)
        },
{
    match parse_notebook(json) {
        Ok(v) => {
            let ghost vv = v;
            let res = load_variant(v, path);
            proof {
                match vv {
                    NotebookVariant::V4(nb) => {
                        lemma_opened_matches_text(res->Ok_0, v4_parts(nb), path, json@);
                    },
                    NotebookVariant::V4Quirks(q) => {
                        lemma_opened_matches_text(res->Ok_0, v4_parts(repaired(q)), path, json@);
                    },
                    _ => {},
                }
            }
            res
        },
        Err(e) => Err(LoadError::Parse(notebook_error_text(e))),
    }
}

/// A document agrees with a v4.5 notebook text: the text's minor version,
/// and its cells in order, each of the text's kind with the text's source
/// lines joined.
pub open spec fn doc_matches_text(doc: NotebookDoc, json: Seq<char>) -> bool {
    &&& doc.nbformat_minor == parsed_minor(json)
    &&& doc.cells@.len() == parsed_cells(json).len()
    &&& forall|k: int| 0 <= k < doc.cells@.len() ==> {
            &&& kind_tag((#[trigger] doc.cells@[k]).kind@) == parsed_cells(json)[k].0
            &&& doc.cells@[k].source@ == concat_all(parsed_cells(json)[k].1)
        }
}

proof fn lemma_opened_matches_text(doc: NotebookDoc, parts: (Metadata, i32, Seq<NbCellView>), path: String, json: Seq<char>)
    requires
        opened_from(doc, parts, path),
        parts_match_text(parts, json),
    ensures
        doc_matches_text(doc, json),
{
    assert(cells_view(doc.cells@).len() == doc.cells@.len());
    assert forall|k: int| 0 <= k < doc.cells@.len() implies {
        &&& kind_tag((#[trigger] doc.cells@[k]).kind@) == parsed_cells(json)[k].0
        &&& doc.cells@[k].source@ == concat_all(parsed_cells(json)[k].1)
    } by {
        assert(cells_view(doc.cells@)[k] == doc.cells@[k]@);
        assert(cells_view(doc.cells@)[k] == cell_from_spec(parts.2[k]));
        assert((nb_cell_tag(parts.2[k]), nb_cell_lines(parts.2[k])) == parsed_cells(json)[k]);
    }
}

/// The nbformat minor version written on save: at least 5 (cell ids).
pub open spec fn saved_minor(minor: i32) -> i32 {
    if minor >= 5 { minor } else { 5 }
}

/// What is written for a document: its minor version (at least 5) and its
/// cells in nbformat form.
pub fn save_parts(doc: &NotebookDoc) -> (res: (i32, Vec<NbCell>))
    ensures
        res.0 == saved_minor(doc.nbformat_minor),
        nb_cells_view(res.1@) == cells_view(doc.cells@).map_values(|c: CellView| cell_to_spec(c)),
{
    let ghost src = cells_view(doc.cells@);
    let mut cells: Vec<NbCell> = Vec::new();
    let mut i: usize = 0;
    while i < doc.cells.len()
        invariant
            i <= doc.cells@.len(),
            src == cells_view(doc.cells@),
            nb_cells_view(cells@) == src.take(i as int).map_values(|c: CellView| cell_to_spec(c)),
        decreases doc.cells@.len() - i,
    {
        let c = cell_to_nbformat(&doc.cells[i]);
        assert(src.take(i + 1) =~= src.take(i as int).push(src[i as int]));
        let ghost prev = cells@;
        cells.push(c);
        assert(cells@ =~= prev.push(c));
        assert(nb_cells_view(cells@) =~= nb_cells_view(prev).push(c@));
        assert(src.take(i + 1).map_values(|c: CellView| cell_to_spec(c)) =~= src.take(i as int).map_values(
            |c: CellView| cell_to_spec(c),
        ).push(cell_to_spec(src[i as int])));
        i = i + 1;
    }
    assert(src.take(doc.cells@.len() as int) =~= src);
    let minor = if doc.nbformat_minor >= 5 { doc.nbformat_minor } else { 5 };
    (minor, cells)
}

/// The cells of a document as they are saved.
pub open spec fn saved_cells(doc: NotebookDoc) -> Seq<NbCellView> {
    cells_view(doc.cells@).map_values(|c: CellView| cell_to_spec(c))
}

/// Serializes a document as nbformat v4 JSON: the text is what nbformat
/// writes for the document's metadata, its minor version (at least 5) and
/// its cells in saved form; where nbformat reports an error, its message.
pub fn save(doc: &NotebookDoc) -> (res: Result<String, SaveError>)
    ensures
        match res {
            Ok(t) => notebook_json(doc.metadata, saved_minor(doc.nbformat_minor), saved_cells(*doc))
                == Ok::<Seq<char>, Seq<char>>(t@),
            Err(e) => notebook_json(doc.metadata, saved_minor(doc.nbformat_minor), saved_cells(*doc))
                == Err::<Seq<char>, Seq<char>>(e.message@),
        },
{
    let (minor, cells) = save_parts(doc);
    match serialize_parts(clone_metadata(&doc.metadata), minor, cells) {
        Ok(json) => Ok(json),
        Err(message) => Err(SaveError { message }),
    }
}

} // verus!
