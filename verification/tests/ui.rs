use rustlab::kernels::{find_python_spec, find_spec, KernelSpecInfo, SpecError};
use rustlab::labels::{prompt_label, status_text, tab_title, unsupported_label, KernelIndicator};
use rustlab::launcher::{kernel_glyph, tile_label};
use rustlab::menu::{items, menu_index, menus, MenuAction, MenuId};
use rustlab::render::{decode_base64, prepare_entries, rank, MediaEntry, MimeKind, Rendered};
use rustlab::sidebar::{entry_icon, is_hidden, parent_of, Effect, Entry, Event, FileBrowser, Listing};
use rustlab::workspace::{after_close, close_in_pane, AfterClose, PaneTabs, TabIds};

fn spec(name: &str, language: &str) -> KernelSpecInfo {
    KernelSpecInfo { name: name.to_string(), language: language.to_string(), display_name: String::new() }
}

fn entry(name: &str, is_dir: bool) -> Entry {
    Entry { name: name.to_string(), path: format!("/w/{name}"), is_dir }
}

#[test]
fn menu_layout() {
    let bar = menus();
    assert_eq!(bar.len(), 8);
    assert_eq!(bar[0], (MenuId::File, "File"));
    assert_eq!(bar[7], (MenuId::Help, "Help"));
    assert_eq!(menu_index(MenuId::Kernel), 4);
    assert_eq!(menu_index(MenuId::File), 0);
    let file = items(MenuId::File);
    assert_eq!(file.len(), 6);
    assert_eq!(file[2], ("Open...", MenuAction::OpenFile));
    assert_eq!(items(MenuId::Run), vec![("Run Selected Cell", MenuAction::RunCell), ("Run All Cells", MenuAction::RunAll)]);
    assert_eq!(items(MenuId::Help)[1], ("About RustLab", MenuAction::About));
}

#[test]
fn launcher_glyphs_and_labels() {
    assert_eq!(kernel_glyph("Python"), "🐍");
    assert_eq!(kernel_glyph("julia"), "🟣");
    assert_eq!(kernel_glyph("MOJO"), "🔥");
    assert_eq!(kernel_glyph("rust"), "🦀");
    assert_eq!(kernel_glyph("R"), "📊");
    assert_eq!(kernel_glyph("cobol"), "⚙️");
    assert_eq!(tile_label("", "python3"), "python3");
    assert_eq!(tile_label("Python 3", "python3"), "Python 3");
}

#[test]
fn labels() {
    assert_eq!(status_text("python3", Some(true)), "python3 ●");
    assert_eq!(status_text("python3", Some(false)), "python3 ○");
    assert_eq!(status_text("dead", None), "dead");
    assert_eq!(KernelIndicator { label: "k", busy: Some(true) }.text(), "k ●");
    assert_eq!(prompt_label(true, Some(3)), "In [*]:");
    assert_eq!(prompt_label(false, Some(12)), "In [12]:");
    assert_eq!(prompt_label(false, Some(-1)), "In [-1]:");
    assert_eq!(prompt_label(false, None), "In [ ]:");
    assert_eq!(tab_title(&Some("/a/b/nb.ipynb".to_string()), false), "nb.ipynb");
    assert_eq!(tab_title(&Some("/a/b/nb.ipynb".to_string()), true), "● nb.ipynb");
    assert_eq!(tab_title(&None, false), "Untitled.ipynb");
    assert_eq!(unsupported_label("output"), "<unsupported output>");
}

#[test]
fn kernel_choice() {
    let specs = vec![spec("ir", "R"), spec("py", "python"), spec("python3", "python")];
    assert_eq!(find_spec(Some("ir"), &specs), Ok(0));
    assert_eq!(find_spec(Some("missing"), &specs), Ok(2));
    assert_eq!(find_spec(None, &specs), Ok(2));
    let no_py3 = vec![spec("ir", "R"), spec("py", "python")];
    assert_eq!(find_spec(None, &no_py3), Ok(1));
    assert_eq!(find_spec(None, &vec![spec("ir", "R")]), Ok(0));
    assert_eq!(find_spec(None, &vec![]), Err(SpecError::NoKernels));
    assert_eq!(find_python_spec(&no_py3), Ok(1));
    assert_eq!(find_python_spec(&vec![spec("ir", "R")]), Err(SpecError::NoPython));
}

#[test]
fn panes() {
    let mut p = PaneTabs::new(0);
    p.push_active(5);
    p.push_active(9);
    assert_eq!(p.active, 2);
    p.select(1);
    assert_eq!(p.active_tab(), Some(5));
    p.select(40);
    assert_eq!(p.active, 2);
    assert!(p.focus(0));
    assert_eq!(p.active, 0);
    assert!(!p.focus(77));
    assert_eq!(p.remove(3), None);
    assert_eq!(p.remove(2), Some(9));
    assert_eq!(p.tabs, vec![0, 5]);
    assert_eq!(p.remove(0), Some(0));
    assert_eq!(p.remove(0), Some(5));
    assert_eq!(p.active, 0);
    assert!(p.tabs.is_empty());
    assert_eq!(after_close(true, 2), AfterClose::ClosePane);
    assert_eq!(after_close(true, 1), AfterClose::AddLauncher);
    assert_eq!(after_close(false, 1), AfterClose::Keep);
    let mut ids = TabIds::starting_at(1);
    assert_eq!(ids.allocate(), 1);
    assert_eq!(ids.allocate(), 2);
}

#[test]
fn sidebar_browser() {
    let mut b = FileBrowser::new("/w".to_string());
    b.apply(Ok(Listing {
        dir: "/w/proj".to_string(),
        entries: vec![entry("Data", true), entry("Notes.ipynb", false), entry("readme.md", false)],
    }));
    assert_eq!(b.cwd, "/w/proj");
    assert_eq!(b.cwd_label(), "/ proj");
    assert_eq!(b.visible(), vec![0, 1, 2]);
    b.filter = "NOTE".to_string();
    assert_eq!(b.visible(), vec![1]);
    b.selected = Some(1);
    b.apply(Err("denied".to_string()));
    assert_eq!(b.error.as_deref(), Some("denied"));
    assert_eq!(b.selected, Some(1));
    assert!(matches!(b.activate(0), Event::Navigate(p) if p == "/w/Data"));
    assert!(matches!(b.activate(1), Event::OpenNotebook(p) if p == "/w/Notes.ipynb"));
    assert!(matches!(b.activate(2), Event::Select(2)));
    assert_eq!(entry_icon(&b.entries[0]), "📁");
    assert_eq!(entry_icon(&b.entries[1]), "📔");
    assert_eq!(entry_icon(&b.entries[2]), "📄");
    assert!(matches!(b.on_event(Event::Up), Effect::ReadDir(d) if d == "/w"));
    assert!(matches!(b.on_event(Event::Refresh), Effect::ReadDir(d) if d == "/w/proj"));
    assert!(matches!(b.on_event(Event::Select(2)), Effect::Nothing));
    assert_eq!(b.selected, Some(2));
    assert_eq!(parent_of("/"), "/");
    assert_eq!(parent_of("/a/b"), "/a");
    assert!(is_hidden(".git"));
    assert!(!is_hidden("src"));
}

#[test]
fn richest_rendering() {
    let e = |kind, text: &str| MediaEntry { kind, text: text.to_string() };
    assert_eq!(rank(MimeKind::Png), 7);
    assert_eq!(rank(MimeKind::Other), 0);
    match prepare_entries(&vec![e(MimeKind::Plain, "p"), e(MimeKind::Markdown, "**m**")]) {
        Rendered::Markdown(m) => assert_eq!(m, "**m**"),
        other => panic!("unexpected {other:?}"),
    }
    match prepare_entries(&vec![e(MimeKind::Plain, "a"), e(MimeKind::Plain, "b")]) {
        Rendered::Ansi(spans) => assert_eq!(spans[0].text, "b"),
        other => panic!("unexpected {other:?}"),
    }
    match prepare_entries(&vec![e(MimeKind::Png, "aGk=\n"), e(MimeKind::Plain, "p")]) {
        Rendered::Image(bytes) => assert_eq!(bytes, b"hi".to_vec()),
        other => panic!("unexpected {other:?}"),
    }
    assert!(matches!(prepare_entries(&vec![e(MimeKind::Jpeg, "@@@")]), Rendered::Unsupported("image (invalid base64)")));
    assert!(matches!(prepare_entries(&vec![e(MimeKind::Other, "")]), Rendered::Unsupported("output")));
    assert!(matches!(prepare_entries(&vec![]), Rendered::Unsupported("output")));
    match prepare_entries(&vec![e(MimeKind::Svg, "<svg/>")]) {
        Rendered::Svg(bytes) => assert_eq!(bytes, b"<svg/>".to_vec()),
        other => panic!("unexpected {other:?}"),
    }
    assert_eq!(decode_base64(" aG k= "), Some(b"hi".to_vec()));
    assert_eq!(decode_base64("a"), None);
}

#[test]
fn closing_in_a_pane() {
    let mut pane = PaneTabs::new(1);
    pane.push_active(2);
    assert_eq!(close_in_pane(&mut pane, 5, 1), None);
    assert_eq!(close_in_pane(&mut pane, 0, 1), Some((1, AfterClose::Keep)));
    assert_eq!(pane.tabs, vec![2]);
    assert_eq!(close_in_pane(&mut pane, 0, 2), Some((2, AfterClose::ClosePane)));
    let mut last = PaneTabs::new(7);
    assert_eq!(close_in_pane(&mut last, 0, 1), Some((7, AfterClose::AddLauncher)));
    assert!(last.tabs.is_empty());
}
