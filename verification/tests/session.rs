use jupyter_protocol::{Media, MediaType};
use nbformat::v4::{CellId, CellMetadata, Metadata};
use rustlab::model::{CellKind, CellOutput, CellState, NotebookDoc};
use rustlab::session::{
    language_token_for, ExecState, IoPub, IoPubContent, KernelMsg, KernelState, NotebookTab, RunDecision, StreamName,
};

fn cell(id: &str, kind: CellKind, source: &str) -> CellState {
    CellState {
        id: CellId::new(id).unwrap(),
        kind,
        source: source.to_string(),
        outputs: Vec::new(),
        execution_count: None,
        metadata: CellMetadata::default(),
        running: false,
    }
}

fn tab() -> NotebookTab<u32> {
    let doc = NotebookDoc {
        path: None,
        metadata: Metadata::default(),
        nbformat_minor: 5,
        cells: vec![
            cell("a", CellKind::Code, "1 + 1"),
            cell("b", CellKind::Markdown { rendered: String::new(), editing: true }, "# hi"),
            cell("c", CellKind::Raw, "raw"),
        ],
        dirty: false,
    };
    NotebookTab::new(doc)
}

fn iopub(parent: &str, content: IoPubContent) -> KernelMsg<u32> {
    KernelMsg::IoPub(IoPub { parent: Some(parent.to_string()), content })
}

#[test]
fn new_tab_is_launching_with_python_token() {
    let t = tab();
    assert!(matches!(t.kernel, KernelState::Launching));
    assert_eq!(t.language, "python");
    assert_eq!(t.kernel_label, "starting...");
    assert_eq!(t.indicator_label(), "starting...");
    assert_eq!(t.indicator_busy(), None);
}

#[test]
fn run_before_kernel_ready_reports_it() {
    let mut t = tab();
    let mut status = String::new();
    assert!(matches!(t.run_cell(0, &mut status), RunDecision::KernelNotReady));
    assert_eq!(status, "kernel not ready");
}

#[test]
fn running_markdown_renders_it() {
    let mut t = tab();
    let mut status = String::new();
    assert!(matches!(t.run_cell(1, &mut status), RunDecision::MarkdownRendered));
    match &t.doc.cells[1].kind {
        CellKind::Markdown { rendered, editing } => {
            assert_eq!(rendered, "# hi");
            assert!(!editing);
        }
        _ => panic!("markdown expected"),
    }
    assert!(status.is_empty());
    t.edit_markdown(1);
    assert!(matches!(t.doc.cells[1].kind, CellKind::Markdown { editing: true, .. }));
}

#[test]
fn execution_round_trip() {
    let mut t = tab();
    t.on_kernel_msg(KernelMsg::Ready { handle: 7, kernel_name: Some("python3".to_string()) });
    assert_eq!(t.indicator_label(), "python3");
    assert_eq!(t.indicator_busy(), Some(false));
    let mut status = String::new();
    match t.run_cell(0, &mut status) {
        RunDecision::Execute { code } => assert_eq!(code, "1 + 1"),
        other => panic!("unexpected {other:?}"),
    }
    assert!(matches!(t.run_cell(2, &mut status), RunDecision::Skipped));
    assert!(matches!(t.run_cell(9, &mut status), RunDecision::Skipped));
    t.begin_execution(0, "m1".to_string());
    assert!(t.doc.cells[0].running);
    assert!(t.doc.dirty);

    t.on_kernel_msg(iopub("m1", IoPubContent::Status(ExecState::Busy)));
    assert_eq!(t.indicator_busy(), Some(true));
    t.on_kernel_msg(iopub("m1", IoPubContent::ExecuteInput { execution_count: 4 }));
    t.on_kernel_msg(iopub("m1", IoPubContent::Stream { name: StreamName::Stdout, text: "x".to_string() }));
    t.on_kernel_msg(iopub("m1", IoPubContent::Stream { name: StreamName::Stdout, text: "y".to_string() }));
    let media = Media::new(vec![MediaType::Plain("2".to_string())]);
    t.on_kernel_msg(iopub("m1", IoPubContent::ExecuteResult { data: media, execution_count: 4 }));
    t.on_kernel_msg(iopub("other", IoPubContent::Stream { name: StreamName::Stderr, text: "z".to_string() }));
    assert_eq!(t.doc.cells[0].execution_count, Some(4));
    assert_eq!(t.doc.cells[0].outputs.len(), 2);
    match &t.doc.cells[0].outputs[0] {
        CellOutput::Stream { name, text } => {
            assert_eq!(name, "stdout");
            assert_eq!(text, "xy");
        }
        _ => panic!("stream expected"),
    }
    t.on_kernel_msg(KernelMsg::ExecuteReply { parent: Some("m1".to_string()), execution_count: 5 });
    assert_eq!(t.doc.cells[0].execution_count, Some(5));
    t.on_kernel_msg(iopub("m1", IoPubContent::Status(ExecState::Idle)));
    assert!(!t.doc.cells[0].running);
    assert!(t.pending.is_empty());
    assert_eq!(t.indicator_busy(), Some(false));
    t.on_kernel_msg(iopub("m1", IoPubContent::Stream { name: StreamName::Stdout, text: "late".to_string() }));
    assert_eq!(t.doc.cells[0].outputs.len(), 2);
}

#[test]
fn error_output_and_restart() {
    let mut t = tab();
    t.on_kernel_msg(KernelMsg::Ready { handle: 3, kernel_name: None });
    assert_eq!(t.kernel_label, "kernel");
    t.begin_execution(0, "m2".to_string());
    t.on_kernel_msg(iopub(
        "m2",
        IoPubContent::Error { ename: "ZeroDivisionError".to_string(), evalue: "x".to_string(), traceback: vec![] },
    ));
    assert!(matches!(t.doc.cells[0].outputs[0], CellOutput::Error { .. }));
    let old = t.restart();
    assert_eq!(old, Some(3));
    assert!(matches!(t.kernel, KernelState::Launching));
    assert!(t.pending.is_empty());
    assert!(!t.doc.cells[0].running);
    t.on_kernel_msg(KernelMsg::Exited(Some(0)));
    assert!(matches!(t.kernel, KernelState::Launching));
}

#[test]
fn exit_and_failure_mark_kernel_dead() {
    let mut t = tab();
    t.on_kernel_msg(KernelMsg::Ready { handle: 1, kernel_name: None });
    t.on_kernel_msg(KernelMsg::Exited(Some(-9)));
    match &t.kernel {
        KernelState::Dead { reason } => assert_eq!(reason, "exited (code Some(-9))"),
        _ => panic!("dead expected"),
    }
    assert_eq!(t.indicator_label(), "dead");
    let mut t2 = tab();
    t2.on_kernel_msg(KernelMsg::Ready { handle: 1, kernel_name: None });
    t2.on_kernel_msg(KernelMsg::Exited(None));
    match &t2.kernel {
        KernelState::Dead { reason } => assert_eq!(reason, "exited (code None)"),
        _ => panic!("dead expected"),
    }
    let mut t3 = tab();
    t3.on_kernel_msg(KernelMsg::Failed("no kernel".to_string()));
    assert!(matches!(&t3.kernel, KernelState::Dead { reason } if reason == "no kernel"));
}

#[test]
fn editing_marks_dirty() {
    let mut t = tab();
    t.edit_cell(0, "2 + 2".to_string());
    assert_eq!(t.doc.cells[0].source, "2 + 2");
    assert!(t.doc.dirty);
    let mut t2 = tab();
    t2.edit_cell(5, "x".to_string());
    assert!(!t2.doc.dirty);
}

#[test]
fn language_tokens() {
    assert_eq!(language_token_for(Some("Python".to_string()), None), "python");
    assert_eq!(language_token_for(None, Some("Mojo".to_string())), "python");
    assert_eq!(language_token_for(Some("julia".to_string()), Some("python".to_string())), "julia");
    assert_eq!(language_token_for(Some("R".to_string()), None), "r");
    assert_eq!(language_token_for(Some("rust".to_string()), None), "rust");
    assert_eq!(language_token_for(Some("markdown".to_string()), None), "markdown");
    assert_eq!(language_token_for(Some("haskell".to_string()), None), "txt");
    assert_eq!(language_token_for(None, None), "python");
}
