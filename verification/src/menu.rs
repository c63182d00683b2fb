//! The menu bar: its menus, in order, and the entries of each menu.

use vstd::prelude::*;

verus! {

#[derive(Debug, Clone, Copy, PartialEq, Eq, Structural)]
pub enum MenuId {
    File,
    Edit,
    View,
    Run,
    Kernel,
    Tabs,
    Settings,
    Help,
}

#[derive(Debug, Clone, Copy, PartialEq, Eq, Structural)]
pub enum MenuAction {
    NewNotebook,
    NewLauncherTab,
    OpenFile,
    Save,
    SaveAs,
    CloseTab,
    AddCellAbove,
    AddCellBelow,
    DeleteCell,
    MoveCellUp,
    MoveCellDown,
    CellToCode,
    CellToMarkdown,
    ToggleSidebar,
    LightTheme,
    DarkTheme,
    RunCell,
    RunAll,
    Interrupt,
    Restart,
    SplitPane,
    NextTab,
    PreviousTab,
    JupyterDocs,
    About,
}

/// The menus of the bar, left to right, with their titles.
pub open spec fn menu_bar_spec() -> Seq<(MenuId, Seq<char>)> {
    seq![
        (MenuId::File, "File"@),
        (MenuId::Edit, "Edit"@),
        (MenuId::View, "View"@),
        (MenuId::Run, "Run"@),
        (MenuId::Kernel, "Kernel"@),
        (MenuId::Tabs, "Tabs"@),
        (MenuId::Settings, "Settings"@),
        (MenuId::Help, "Help"@),
    ]
}

pub open spec fn labeled_view<T>(v: Seq<(T, &'static str)>) -> Seq<(T, Seq<char>)> {
    v.map_values(|p: (T, &'static str)| (p.0, p.1@))
}

pub open spec fn items_view<T>(v: Seq<(&'static str, T)>) -> Seq<(Seq<char>, T)> {
    v.map_values(|p: (&'static str, T)| (p.0@, p.1))
}

/// The menus of the bar, left to right, with their titles.
pub fn menus() -> (res: Vec<(MenuId, &'static str)>)
    ensures
        labeled_view(res@) == menu_bar_spec(),
{
    let res = vec![
        (MenuId::File, "File"),
        (MenuId::Edit, "Edit"),
        (MenuId::View, "View"),
        (MenuId::Run, "Run"),
        (MenuId::Kernel, "Kernel"),
        (MenuId::Tabs, "Tabs"),
        (MenuId::Settings, "Settings"),
        (MenuId::Help, "Help"),
    ];
    assert(labeled_view(res@) =~= menu_bar_spec());
    res
}

/// Where a menu stands in the bar (0 for the leftmost).
pub open spec fn menu_index_spec(menu: MenuId) -> int {
    match menu {
        MenuId::File => 0,
        MenuId::Edit => 1,
        MenuId::View => 2,
        MenuId::Run => 3,
        MenuId::Kernel => 4,
        MenuId::Tabs => 5,
        MenuId::Settings => 6,
        MenuId::Help => 7,
    }
}

/// Where a menu stands in the bar; its dropdown opens under that button.
pub fn menu_index(menu: MenuId) -> (res: usize)
    ensures
        res == menu_index_spec(menu),
        res < menu_bar_spec().len() && menu_bar_spec()[res as int].0 == menu,
{
    let bar = menus();
    assert(labeled_view(bar@).len() == bar@.len());
    let mut i: usize = 0;
    while i < bar.len()
        invariant
            labeled_view(bar@) == menu_bar_spec(),
            i <= bar@.len(),
            bar@.len() == 8,
            forall|j: int| 0 <= j < i ==> menu_bar_spec()[j].0 != menu,
        decreases bar@.len() - i,
    {
        assert(bar@[i as int].0 == menu_bar_spec()[i as int].0);
        if bar[i].0 == menu {
            return i;
        }
        i = i + 1;
    }
    assert(menu_bar_spec()[menu_index_spec(menu)].0 == menu);
    0
}

/// The entries of each menu: label and action, top to bottom.
pub open spec fn menu_items(menu: MenuId) -> Seq<(Seq<char>, MenuAction)> {
    match menu {
        MenuId::File => seq![
            ("New Notebook"@, MenuAction::NewNotebook),
            ("New Launcher"@, MenuAction::NewLauncherTab),
            ("Open..."@, MenuAction::OpenFile),
            ("Save"@, MenuAction::Save),
            ("Save As..."@, MenuAction::SaveAs),
            ("Close Tab"@, MenuAction::CloseTab),
        ],
        MenuId::Edit => seq![
            ("Insert Cell Above"@, MenuAction::AddCellAbove),
            ("Insert Cell Below"@, MenuAction::AddCellBelow),
            ("Delete Cell"@, MenuAction::DeleteCell),
            ("Move Cell Up"@, MenuAction::MoveCellUp),
            ("Move Cell Down"@, MenuAction::MoveCellDown),
            ("Change to Code"@, MenuAction::CellToCode),
            ("Change to Markdown"@, MenuAction::CellToMarkdown),
        ],
        MenuId::View => seq![("Toggle Sidebar"@, MenuAction::ToggleSidebar)],
        MenuId::Run => seq![("Run Selected Cell"@, MenuAction::RunCell), ("Run All Cells"@, MenuAction::RunAll)],
        MenuId::Kernel => seq![("Interrupt Kernel"@, MenuAction::Interrupt), ("Restart Kernel"@, MenuAction::Restart)],
        MenuId::Tabs => seq![
            ("Split Pane"@, MenuAction::SplitPane),
            ("Next Tab"@, MenuAction::NextTab),
            ("Previous Tab"@, MenuAction::PreviousTab),
        ],
        MenuId::Settings => seq![("Light Theme"@, MenuAction::LightTheme), ("Dark Theme"@, MenuAction::DarkTheme)],
        MenuId::Help => seq![("Jupyter Documentation"@, MenuAction::JupyterDocs), ("About RustLab"@, MenuAction::About)],
    }
}

/// The entries of a menu.
pub fn items(menu: MenuId) -> (res: Vec<(&'static str, MenuAction)>)
    ensures
        items_view(res@) == menu_items(menu),
{
    let res = match menu {
        MenuId::File => vec![
            ("New Notebook", MenuAction::NewNotebook),
            ("New Launcher", MenuAction::NewLauncherTab),
            ("Open...", MenuAction::OpenFile),
            ("Save", MenuAction::Save),
            ("Save As...", MenuAction::SaveAs),
            ("Close Tab", MenuAction::CloseTab),
        ],
        MenuId::Edit => vec![
            ("Insert Cell Above", MenuAction::AddCellAbove),
            ("Insert Cell Below", MenuAction::AddCellBelow),
            ("Delete Cell", MenuAction::DeleteCell),
            ("Move Cell Up", MenuAction::MoveCellUp),
            ("Move Cell Down", MenuAction::MoveCellDown),
            ("Change to Code", MenuAction::CellToCode),
            ("Change to Markdown", MenuAction::CellToMarkdown),
        ],
        MenuId::View => vec![("Toggle Sidebar", MenuAction::ToggleSidebar)],
        MenuId::Run => vec![("Run Selected Cell", MenuAction::RunCell), ("Run All Cells", MenuAction::RunAll)],
        MenuId::Kernel => vec![("Interrupt Kernel", MenuAction::Interrupt), ("Restart Kernel", MenuAction::Restart)],
        MenuId::Tabs => vec![
            ("Split Pane", MenuAction::SplitPane),
            ("Next Tab", MenuAction::NextTab),
            ("Previous Tab", MenuAction::PreviousTab),
        ],
        MenuId::Settings => vec![("Light Theme", MenuAction::LightTheme), ("Dark Theme", MenuAction::DarkTheme)],
        MenuId::Help => vec![("Jupyter Documentation", MenuAction::JupyterDocs), ("About RustLab", MenuAction::About)],
    };
    assert(items_view(res@) =~= menu_items(menu));
    res
}

/// Every menu has entries, and no action appears twice within a menu.
pub proof fn law_menu_items_distinct(menu: MenuId)
    ensures
        menu_items(menu).len() > 0,
        forall|i: int, j: int| 0 <= i < j < menu_items(menu).len() ==> menu_items(menu)[i].1 != menu_items(menu)[j].1,
{
}


/// The menu and the row where an action is offered.
pub open spec fn place_of(action: MenuAction) -> (MenuId, int) {
    match action {
        MenuAction::NewNotebook => (MenuId::File, 0int),
        MenuAction::NewLauncherTab => (MenuId::File, 1int),
        MenuAction::OpenFile => (MenuId::File, 2int),
        MenuAction::Save => (MenuId::File, 3int),
        MenuAction::SaveAs => (MenuId::File, 4int),
        MenuAction::CloseTab => (MenuId::File, 5int),
        MenuAction::AddCellAbove => (MenuId::Edit, 0int),
        MenuAction::AddCellBelow => (MenuId::Edit, 1int),
        MenuAction::DeleteCell => (MenuId::Edit, 2int),
        MenuAction::MoveCellUp => (MenuId::Edit, 3int),
        MenuAction::MoveCellDown => (MenuId::Edit, 4int),
        MenuAction::CellToCode => (MenuId::Edit, 5int),
        MenuAction::CellToMarkdown => (MenuId::Edit, 6int),
        MenuAction::ToggleSidebar => (MenuId::View, 0int),
        MenuAction::RunCell => (MenuId::Run, 0int),
        MenuAction::RunAll => (MenuId::Run, 1int),
        MenuAction::Interrupt => (MenuId::Kernel, 0int),
        MenuAction::Restart => (MenuId::Kernel, 1int),
        MenuAction::SplitPane => (MenuId::Tabs, 0int),
        MenuAction::NextTab => (MenuId::Tabs, 1int),
        MenuAction::PreviousTab => (MenuId::Tabs, 2int),
        MenuAction::LightTheme => (MenuId::Settings, 0int),
        MenuAction::DarkTheme => (MenuId::Settings, 1int),
        MenuAction::JupyterDocs => (MenuId::Help, 0int),
        MenuAction::About => (MenuId::Help, 1int),
    }
}

/// Every action is offered exactly once in the whole menu bar: at its
/// place, and nowhere else.
pub proof fn law_menu_action_once(action: MenuAction, menu: MenuId, k: int)
    ensures
        0 <= place_of(action).1 < menu_items(place_of(action).0).len(),
        menu_items(place_of(action).0)[place_of(action).1].1 == action,
        0 <= k < menu_items(menu).len() && menu_items(menu)[k].1 == action ==> (menu, k) == place_of(action),
{
}

/// Within a menu no two rows carry the same label.
pub proof fn law_menu_labels_distinct(menu: MenuId)
    ensures
        forall|i: int, j: int| 0 <= i < j < menu_items(menu).len() ==> menu_items(menu)[i].0 != menu_items(menu)[j].0,
{
    reveal_strlit("New Notebook");
    reveal_strlit("New Launcher");
    reveal_strlit("Open...");
    reveal_strlit("Save");
    reveal_strlit("Save As...");
    reveal_strlit("Close Tab");
    reveal_strlit("Insert Cell Above");
    reveal_strlit("Insert Cell Below");
    reveal_strlit("Delete Cell");
    reveal_strlit("Move Cell Up");
    reveal_strlit("Move Cell Down");
    reveal_strlit("Change to Code");
    reveal_strlit("Change to Markdown");
    reveal_strlit("Toggle Sidebar");
    reveal_strlit("Run Selected Cell");
    reveal_strlit("Run All Cells");
    reveal_strlit("Interrupt Kernel");
    reveal_strlit("Restart Kernel");
    reveal_strlit("Split Pane");
    reveal_strlit("Next Tab");
    reveal_strlit("Previous Tab");
    reveal_strlit("Light Theme");
    reveal_strlit("Dark Theme");
    reveal_strlit("Jupyter Documentation");
    reveal_strlit("About RustLab");
    assert("New Notebook"@[4] != "New Launcher"@[4]);
    assert("New Notebook"@.len() != "Open..."@.len());
    assert("New Notebook"@.len() != "Save"@.len());
    assert("New Notebook"@.len() != "Save As..."@.len());
    assert("New Notebook"@.len() != "Close Tab"@.len());
    assert("New Launcher"@.len() != "Open..."@.len());
    assert("New Launcher"@.len() != "Save"@.len());
    assert("New Launcher"@.len() != "Save As..."@.len());
    assert("New Launcher"@.len() != "Close Tab"@.len());
    assert("Open..."@.len() != "Save"@.len());
    assert("Open..."@.len() != "Save As..."@.len());
    assert("Open..."@.len() != "Close Tab"@.len());
    assert("Save"@.len() != "Save As..."@.len());
    assert("Save"@.len() != "Close Tab"@.len());
    assert("Save As..."@.len() != "Close Tab"@.len());
    assert("Insert Cell Above"@[12] != "Insert Cell Below"@[12]);
    assert("Insert Cell Above"@.len() != "Delete Cell"@.len());
    assert("Insert Cell Above"@.len() != "Move Cell Up"@.len());
    assert("Insert Cell Above"@.len() != "Move Cell Down"@.len());
    assert("Insert Cell Above"@.len() != "Change to Code"@.len());
    assert("Insert Cell Above"@.len() != "Change to Markdown"@.len());
    assert("Insert Cell Below"@.len() != "Delete Cell"@.len());
    assert("Insert Cell Below"@.len() != "Move Cell Up"@.len());
    assert("Insert Cell Below"@.len() != "Move Cell Down"@.len());
    assert("Insert Cell Below"@.len() != "Change to Code"@.len());
    assert("Insert Cell Below"@.len() != "Change to Markdown"@.len());
    assert("Delete Cell"@.len() != "Move Cell Up"@.len());
    assert("Delete Cell"@.len() != "Move Cell Down"@.len());
    assert("Delete Cell"@.len() != "Change to Code"@.len());
    assert("Delete Cell"@.len() != "Change to Markdown"@.len());
    assert("Move Cell Up"@.len() != "Move Cell Down"@.len());
    assert("Move Cell Up"@.len() != "Change to Code"@.len());
    assert("Move Cell Up"@.len() != "Change to Markdown"@.len());
    assert("Move Cell Down"@[0] != "Change to Code"@[0]);
    assert("Move Cell Down"@.len() != "Change to Markdown"@.len());
    assert("Change to Code"@.len() != "Change to Markdown"@.len());
    assert("Run Selected Cell"@.len() != "Run All Cells"@.len());
    assert("Interrupt Kernel"@.len() != "Restart Kernel"@.len());
    assert("Split Pane"@.len() != "Next Tab"@.len());
    assert("Split Pane"@.len() != "Previous Tab"@.len());
    assert("Next Tab"@.len() != "Previous Tab"@.len());
    assert("Light Theme"@.len() != "Dark Theme"@.len());
    assert("Jupyter Documentation"@.len() != "About RustLab"@.len());
}

} // verus!
