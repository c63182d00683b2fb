use rustlab::kernels::{sorted_unique, KernelSpecInfo};
use rustlab::model::CellKind;
use rustlab::session::{find_tab_with_path, new_notebook_doc, ExecState, NotebookTab, SavePlan};
use rustlab::labels::untitled_name;
use rustlab::sidebar::{listing_entries, order_listing, Entry};
use rustlab::worker::{
    after_shutdown_wait, connection_file_name, headless_start, headless_step, retry_connect, worker_step, CommandKind,
    HeadlessEvent, HeadlessStep, WorkerAction, WorkerInput, CONNECT_ATTEMPTS,
};

fn spec(name: &str, display_name: &str) -> KernelSpecInfo {
    KernelSpecInfo { name: name.to_string(), language: "python".to_string(), display_name: display_name.to_string() }
}

fn entry(name: &str, is_dir: bool) -> Entry {
    Entry { name: name.to_string(), path: format!("/w/{name}"), is_dir }
}

#[test]
fn discovery_sorts_by_name_and_keeps_first_of_each() {
    let found = vec![spec("python3", "first"), spec("ir", "R"), spec("julia-1.10", "Julia"), spec("python3", "second")];
    let listed = sorted_unique(found);
    let names: Vec<&str> = listed.iter().map(|s| s.name.as_str()).collect();
    assert_eq!(names, vec!["ir", "julia-1.10", "python3"]);
    assert_eq!(listed[2].display_name, "first");
    assert!(sorted_unique(Vec::new()).is_empty());
}

#[test]
fn discovery_orders_by_code_point() {
    let listed = sorted_unique(vec![spec("b", ""), spec("B", ""), spec("a", ""), spec("ab", "")]);
    let names: Vec<&str> = listed.iter().map(|s| s.name.as_str()).collect();
    assert_eq!(names, vec!["B", "a", "ab", "b"]);
}

#[test]
fn listing_puts_directories_first_then_names_ignoring_case() {
    let read = vec![
        entry("zeta.ipynb", false),
        entry("Beta", true),
        entry("alpha.txt", false),
        entry("alpha", true),
        entry("Alpha.txt", false),
    ];
    let listed = order_listing(read);
    let names: Vec<&str> = listed.iter().map(|e| e.name.as_str()).collect();
    assert_eq!(names, vec!["alpha", "Beta", "alpha.txt", "Alpha.txt", "zeta.ipynb"]);
    assert!(order_listing(Vec::new()).is_empty());
}

#[test]
fn worker_steps() {
    assert_eq!(worker_step(WorkerInput::Command(Some(CommandKind::Shell))), (WorkerAction::SendShell, false));
    assert_eq!(worker_step(WorkerInput::Command(Some(CommandKind::Control))), (WorkerAction::SendControl, false));
    assert_eq!(worker_step(WorkerInput::Command(Some(CommandKind::Shutdown))), (WorkerAction::Shutdown, true));
    assert_eq!(worker_step(WorkerInput::Command(None)), (WorkerAction::Shutdown, true));
    assert_eq!(worker_step(WorkerInput::ChildExited(Some(1))), (WorkerAction::ReportExit(Some(1)), true));
    assert_eq!(after_shutdown_wait(Some(Some(0))), (false, Some(0)));
    assert_eq!(after_shutdown_wait(Some(None)), (false, None));
    assert_eq!(after_shutdown_wait(None), (true, None));
}

#[test]
fn connection_retries_and_file_name() {
    assert!(retry_connect(0));
    assert!(retry_connect(CONNECT_ATTEMPTS - 2));
    assert!(!retry_connect(CONNECT_ATTEMPTS - 1));
    assert_eq!(connection_file_name("abc-123"), "kernel-rustlab-abc-123.json");
}

#[test]
fn headless_smoke_test_steps() {
    let mut p = headless_start();
    let idle = |id: &str| HeadlessEvent::Status { parent: Some(id.to_string()), state: ExecState::Idle };
    // Handshake: the info request is repeated until the kernel replies.
    assert_eq!(headless_step(&mut p, "exec-1", &HeadlessEvent::Tick), HeadlessStep::RequestInfo);
    assert_eq!(headless_step(&mut p, "exec-1", &idle("exec-1")), HeadlessStep::Continue);
    assert_eq!(headless_step(&mut p, "exec-1", &HeadlessEvent::InfoReply), HeadlessStep::SendExecute);
    assert!(p.info_replied);
    assert_eq!(headless_step(&mut p, "exec-1", &HeadlessEvent::InfoReply), HeadlessStep::Continue);
    assert_eq!(headless_step(&mut p, "exec-1", &HeadlessEvent::Tick), HeadlessStep::Continue);
    assert_eq!(headless_step(&mut p, "exec-1", &HeadlessEvent::Stream), HeadlessStep::Continue);
    assert!(!p.got_result);
    assert_eq!(headless_step(&mut p, "exec-1", &HeadlessEvent::ExecuteResult), HeadlessStep::Continue);
    assert!(p.got_result);
    assert_eq!(headless_step(&mut p, "exec-1", &idle("info-0")), HeadlessStep::Continue);
    let busy = HeadlessEvent::Status { parent: Some("exec-1".to_string()), state: ExecState::Busy };
    assert_eq!(headless_step(&mut p, "exec-1", &busy), HeadlessStep::Continue);
    assert_eq!(headless_step(&mut p, "exec-1", &idle("exec-1")), HeadlessStep::Finished);
    let mut fresh = headless_start();
    assert_eq!(headless_step(&mut fresh, "x", &HeadlessEvent::Exited(Some(9))), HeadlessStep::KernelDied(Some(9)));
}

#[test]
fn open_tabs_are_found_by_path() {
    let tabs = vec![(1u64, None), (4u64, Some("/n/a.ipynb".to_string())), (7u64, Some("/n/a.ipynb".to_string()))];
    assert_eq!(find_tab_with_path(&tabs, "/n/a.ipynb"), Some(4));
    assert_eq!(find_tab_with_path(&tabs, "/n/b.ipynb"), None);
}

#[test]
fn new_notebook_and_save_plans() {
    let python = spec("python3", "Python 3");
    let doc = new_notebook_doc(Some(&python));
    assert!(doc.path.is_none());
    assert!(doc.dirty);
    assert_eq!(doc.nbformat_minor, 5);
    assert_eq!(doc.cells.len(), 1);
    assert!(matches!(doc.cells[0].kind, CellKind::Code));
    assert_eq!(doc.cells[0].source, "");
    assert_eq!(doc.metadata.kernelspec.as_ref().map(|k| k.name.as_str()), Some("python3"));

    let mut tab: NotebookTab<u32> = NotebookTab::new(doc);
    assert!(matches!(tab.prepare_save(), SavePlan::AskPath));
    assert!(tab.doc.dirty);
    tab.doc.path = Some("/tmp/x.ipynb".to_string());
    match tab.prepare_save() {
        SavePlan::Write { path, json } => {
            assert_eq!(path, "/tmp/x.ipynb");
            assert!(json.contains("\"python3\""));
            assert!(json.contains("\"cells\""));
        }
        other => panic!("unexpected plan {other:?}"),
    }
    assert!(!tab.doc.dirty);

    let bare = new_notebook_doc(None);
    assert!(bare.metadata.kernelspec.is_none());
}

#[test]
fn listings_drop_hidden_entries() {
    let read = vec![entry(".git", true), entry("b.txt", false), entry(".env", false), entry("A", true)];
    let listed = listing_entries(read);
    let names: Vec<&str> = listed.iter().map(|e| e.name.as_str()).collect();
    assert_eq!(names, vec!["A", "b.txt"]);
}

#[test]
fn untitled_names() {
    assert_eq!(untitled_name(0), "Untitled.ipynb");
    assert_eq!(untitled_name(1), "Untitled1.ipynb");
    assert_eq!(untitled_name(12), "Untitled12.ipynb");
}

#[test]
fn lowercase_tables() {
    assert_eq!(rustlab::launcher::glyph_for_lowercase("python"), "🐍");
    assert_eq!(rustlab::launcher::glyph_for_lowercase("Python"), "⚙️");
    assert_eq!(rustlab::launcher::glyph_for_lowercase("r"), "📊");
    assert_eq!(rustlab::session::token_for_lowercase("mojo"), "python");
    assert_eq!(rustlab::session::token_for_lowercase("julia"), "julia");
    assert_eq!(rustlab::session::token_for_lowercase("RUST"), "txt");
    assert_eq!(rustlab::session::language_token_for(None, Some("Rust".to_string())), "rust");
}
