use jupyter_protocol::{Media, MediaType};
use nbformat::v4::{CellId, CellMetadata};
use rustlab::model::{
    cell_from_nbformat, cell_to_nbformat, new_code_cell, output_from_nbformat, output_to_nbformat, split_lines,
    CellKind, CellOutput, CellState, NbCell, NbOutput,
};
use rustlab::nbfile::{load, save, LoadError};
use rustlab::render::Rendered;
use rustlab::session::{NotebookTab, SavePlan};

fn code_cell(source: &str) -> CellState {
    CellState {
        id: CellId::new("cell-1").unwrap(),
        kind: CellKind::Code,
        source: source.to_string(),
        outputs: Vec::new(),
        execution_count: None,
        metadata: CellMetadata::default(),
        running: false,
    }
}

#[test]
fn split_lines_keeps_newlines() {
    assert_eq!(split_lines("a\nb\n"), vec!["a\n".to_string(), "b\n".to_string()]);
    assert_eq!(split_lines("a\nb"), vec!["a\n".to_string(), "b".to_string()]);
    assert_eq!(split_lines("\n\n"), vec!["\n".to_string(), "\n".to_string()]);
    assert!(split_lines("").is_empty());
    assert_eq!(split_lines("x").concat(), "x");
}

#[test]
fn push_stream_merges_same_name() {
    let mut cell = code_cell("print(1)");
    cell.push_stream("stdout", "a");
    cell.push_stream("stdout", "b");
    cell.push_stream("stderr", "c");
    cell.push_stream("stdout", "d");
    assert_eq!(cell.outputs.len(), 3);
    match &cell.outputs[0] {
        CellOutput::Stream { name, text } => {
            assert_eq!(name, "stdout");
            assert_eq!(text, "ab");
        }
        _ => panic!("expected a stream"),
    }
    match &cell.outputs[2] {
        CellOutput::Stream { name, text } => {
            assert_eq!(name, "stdout");
            assert_eq!(text, "d");
        }
        _ => panic!("expected a stream"),
    }
}

#[test]
fn source_text_and_kind() {
    let cell = code_cell("1 + 1");
    assert_eq!(cell.source_text(), "1 + 1");
    assert!(cell.is_code());
    let fresh = new_code_cell();
    assert!(fresh.is_code());
    assert!(fresh.source.is_empty());
    assert!(!fresh.running);
}

#[test]
fn cell_round_trip_keeps_source() {
    let cell = code_cell("x = 1\ny = 2\n");
    let nb = cell_to_nbformat(&cell);
    match &nb {
        NbCell::Code { source, .. } => assert_eq!(source, &vec!["x = 1\n".to_string(), "y = 2\n".to_string()]),
        _ => panic!("expected a code cell"),
    }
    let back = cell_from_nbformat(nb);
    assert_eq!(back.source, "x = 1\ny = 2\n");
    assert_eq!(back.id.as_str(), "cell-1");
    assert!(back.is_code());
}

#[test]
fn markdown_cell_from_nbformat_is_rendered_not_editing() {
    let nb = NbCell::Markdown {
        id: CellId::new("md").unwrap(),
        metadata: CellMetadata::default(),
        source: vec!["# Title\n".to_string(), "text".to_string()],
        attachments: None,
    };
    let cell = cell_from_nbformat(nb);
    assert_eq!(cell.source, "# Title\ntext");
    match &cell.kind {
        CellKind::Markdown { rendered, editing } => {
            assert_eq!(rendered, "# Title\ntext");
            assert!(!editing);
        }
        _ => panic!("expected markdown"),
    }
}

#[test]
fn outputs_round_trip() {
    let media = Media::new(vec![MediaType::Plain("4".to_string())]);
    let mut kept = serde_json::Map::new();
    kept.insert("collapsed".to_string(), serde_json::Value::Bool(true));
    let out = output_from_nbformat(NbOutput::ExecuteResult { execution_count: 3, data: media, metadata: kept });
    match &out {
        CellOutput::Data { execution_count, rendered, .. } => {
            assert_eq!(*execution_count, Some(3));
            match rendered {
                Rendered::Ansi(spans) => assert_eq!(spans[0].text, "4"),
                other => panic!("unexpected rendering {other:?}"),
            }
        }
        _ => panic!("expected data"),
    }
    match output_to_nbformat(&out) {
        NbOutput::ExecuteResult { execution_count, metadata, .. } => {
            assert_eq!(execution_count, 3);
            assert!(metadata.is_empty());
        }
        other => panic!("unexpected {other:?}"),
    }
    let display = output_from_nbformat(NbOutput::DisplayData { data: Media::default(), metadata: serde_json::Map::new() });
    match output_to_nbformat(&display) {
        NbOutput::DisplayData { metadata, .. } => assert!(metadata.is_empty()),
        other => panic!("unexpected {other:?}"),
    }
    let err = output_from_nbformat(NbOutput::Error {
        ename: "E".to_string(),
        evalue: "v".to_string(),
        traceback: vec!["t".to_string()],
    });
    match output_to_nbformat(&err) {
        NbOutput::Error { ename, evalue, traceback } => {
            assert_eq!(ename, "E");
            assert_eq!(evalue, "v");
            assert_eq!(traceback, vec!["t".to_string()]);
        }
        other => panic!("unexpected {other:?}"),
    }
}

const SMOKE: &str = r##"{
 "cells": [
  {"cell_type": "markdown", "id": "m1", "metadata": {}, "source": ["# Smoke\n", "test"]},
  {"cell_type": "code", "execution_count": 1, "id": "c1", "metadata": {},
   "outputs": [{"name": "stdout", "output_type": "stream", "text": ["hi\n"]},
               {"data": {"text/plain": ["4"]}, "execution_count": 1, "metadata": {}, "output_type": "execute_result"}],
   "source": ["print('hi')\n", "2 + 2"]},
  {"cell_type": "raw", "id": "r1", "metadata": {}, "source": ["raw text"]}
 ],
 "metadata": {"kernelspec": {"display_name": "Python 3", "language": "python", "name": "python3"}},
 "nbformat": 4,
 "nbformat_minor": 5
}"##;

#[test]
fn load_then_save_keeps_cells_and_sources() {
    let doc = load(SMOKE, "/tmp/smoke.ipynb".to_string()).expect("fixture should load");
    assert_eq!(doc.cells.len(), 3);
    assert!(matches!(doc.cells[0].kind, CellKind::Markdown { .. }));
    assert_eq!(doc.cells[1].source, "print('hi')\n2 + 2");
    assert_eq!(doc.cells[1].outputs.len(), 2);
    assert_eq!(doc.cells[1].execution_count, Some(1));
    assert!(!doc.dirty);
    assert_eq!(doc.path.as_deref(), Some("/tmp/smoke.ipynb"));

    let json = save(&doc).expect("serialize");
    let reparsed: serde_json::Value = serde_json::from_str(&json).unwrap();
    let source_json: serde_json::Value = serde_json::from_str(SMOKE).unwrap();
    let cells = reparsed["cells"].as_array().unwrap();
    assert_eq!(cells.len(), source_json["cells"].as_array().unwrap().len());
    let join = |v: &serde_json::Value| -> String {
        v["source"].as_array().unwrap().iter().map(|s| s.as_str().unwrap()).collect()
    };
    for (a, b) in cells.iter().zip(source_json["cells"].as_array().unwrap()) {
        assert_eq!(join(a), join(b));
        assert_eq!(a["id"], b["id"]);
    }
    assert_eq!(reparsed["nbformat_minor"], 5);
}

#[test]
fn load_rejects_garbage() {
    assert!(matches!(load("not json", "x".to_string()), Err(LoadError::Parse(_))));
}

#[test]
fn load_refuses_unknown_versions_and_upgrades_older_ones() {
    let v5 = r#"{"nbformat": 5, "nbformat_minor": 0, "metadata": {}, "cells": []}"#;
    assert!(matches!(load(v5, "x".to_string()), Err(LoadError::Parse(_))));
    let v44 = r##"{"nbformat": 4, "nbformat_minor": 4, "metadata": {},
        "cells": [{"cell_type": "markdown", "metadata": {}, "source": ["# Title"]}]}"##;
    let doc = load(v44, "old.ipynb".to_string()).expect("a v4.4 notebook opens");
    assert_eq!(doc.nbformat_minor, 5);
    assert_eq!(doc.cells.len(), 1);
    assert_eq!(doc.cells[0].source, "# Title");
    assert!(matches!(doc.cells[0].kind, CellKind::Markdown { editing: false, .. }));
    assert!(!doc.dirty);
}

#[test]
fn save_plan_writes_the_serialized_document() {
    let v45 = r#"{"nbformat": 4, "nbformat_minor": 5, "metadata": {},
        "cells": [{"cell_type": "code", "id": "a1", "metadata": {}, "execution_count": null,
                   "source": ["1 + 1"], "outputs": []}]}"#;
    let doc = load(v45, "/tmp/plan.ipynb".to_string()).expect("loads");
    let expected = save(&doc).expect("serializes");
    let mut tab: NotebookTab<u32> = NotebookTab::new(doc);
    tab.doc.dirty = true;
    match tab.prepare_save() {
        SavePlan::Write { path, json } => {
            assert_eq!(path, "/tmp/plan.ipynb");
            assert_eq!(json, expected);
        }
        other => panic!("unexpected plan {other:?}"),
    }
    assert!(!tab.doc.dirty);
}

#[test]
fn v3_notebooks_upgrade_unless_a_heading_level_is_negative() {
    let good = r#"{"nbformat": 3, "nbformat_minor": 0, "metadata": {},
        "worksheets": [{"cells": [{"cell_type": "heading", "level": 2, "metadata": {}, "source": "Title"}]}]}"#;
    let doc = load(good, "v3.ipynb".to_string()).expect("a v3 notebook opens");
    assert_eq!(doc.cells.len(), 1);
    assert_eq!(doc.cells[0].source, "## Title");
    let bad = r#"{"nbformat": 3, "nbformat_minor": 0, "metadata": {},
        "worksheets": [{"cells": [{"cell_type": "heading", "level": -1, "metadata": {}, "source": "Title"}]}]}"#;
    assert!(matches!(load(bad, "v3.ipynb".to_string()), Err(LoadError::Upgrade(_))));
}

#[test]
fn v45_notebooks_open_with_their_cells_and_quirky_ones_get_ids() {
    let strict = r##"{"nbformat": 4, "nbformat_minor": 5, "metadata": {},
        "cells": [{"cell_type": "markdown", "id": "m1", "metadata": {}, "source": ["# A\n", "b"]},
                  {"cell_type": "raw", "id": "r1", "metadata": {}, "source": "raw text"}]}"##;
    let doc = load(strict, "s.ipynb".to_string()).expect("opens");
    assert_eq!(doc.nbformat_minor, 5);
    assert_eq!(doc.cells.len(), 2);
    assert!(matches!(doc.cells[0].kind, CellKind::Markdown { .. }));
    assert_eq!(doc.cells[0].source, "# A\nb");
    assert!(matches!(doc.cells[1].kind, CellKind::Raw));
    assert_eq!(doc.cells[1].source, "raw text");
    let quirky = r#"{"nbformat": 4, "nbformat_minor": 5, "metadata": {},
        "cells": [{"cell_type": "code", "metadata": {}, "execution_count": null, "source": "x = 1", "outputs": []}]}"#;
    let doc = load(quirky, "q.ipynb".to_string()).expect("a cell without an id still opens");
    assert_eq!(doc.cells.len(), 1);
    assert!(matches!(doc.cells[0].kind, CellKind::Code));
    assert_eq!(doc.cells[0].source, "x = 1");
}
