//! The application's commands, the keys bound to them on each platform,
//! and the menus that offer them.
use crate::platform::TargetOs;
use vstd::prelude::*;

verus! {

broadcast use vstd::std_specs::vec::axiom_vec_index_decreases;

/// A command of the application (not of Neovim).
#[derive(Debug, Clone, Copy, PartialEq, Eq, Structural)]
pub enum AppAction {
    Quit,
    NewWindow,
    OpenFile,
    OpenFolder,
    OpenConfig,
    CloseBuffer,
    Escape,
    ReloadNvim,
    InstallCli,
    Paste,
    Copy,
    Cut,
    SelectAll,
    Undo,
    Redo,
    ShowAbout,
}

/// A keystroke (in the window system's notation, such as `cmd-shift-r`)
/// bound to a command.
#[derive(Debug)]
pub struct KeyBinding {
    pub keystroke: String,
    pub action: AppAction,
}

/// The keys bound on each platform: Command shortcuts on macOS;
/// Ctrl+Shift shortcuts (with Alt+F4 and Ctrl+Alt+O) elsewhere.
pub open spec fn keymap_for(os: TargetOs) -> Seq<(Seq<char>, AppAction)> {
    if os == TargetOs::MacOs {
        seq![
            ("cmd-q"@, AppAction::Quit),
            ("cmd-w"@, AppAction::CloseBuffer),
            ("cmd-W"@, AppAction::CloseBuffer),
            ("cmd-shift-n"@, AppAction::NewWindow),
            ("cmd-shift-N"@, AppAction::NewWindow),
            ("cmd-,"@, AppAction::OpenConfig),
            ("cmd-shift-r"@, AppAction::ReloadNvim),
            ("cmd-shift-R"@, AppAction::ReloadNvim),
            ("cmd-o"@, AppAction::OpenFile),
            ("cmd-alt-o"@, AppAction::OpenFolder),
            ("cmd-shift-o"@, AppAction::OpenFolder),
            ("cmd-v"@, AppAction::Paste),
            ("cmd-V"@, AppAction::Paste),
            ("cmd-c"@, AppAction::Copy),
            ("cmd-C"@, AppAction::Copy),
            ("cmd-x"@, AppAction::Cut),
            ("cmd-X"@, AppAction::Cut),
            ("cmd-a"@, AppAction::SelectAll),
            ("cmd-A"@, AppAction::SelectAll),
            ("cmd-z"@, AppAction::Undo),
            ("cmd-shift-z"@, AppAction::Redo),
            ("cmd-shift-Z"@, AppAction::Redo),
            ("escape"@, AppAction::Escape),
            ("ctrl-["@, AppAction::Escape),
        ]
    } else {
        seq![
            ("ctrl-shift-q"@, AppAction::Quit),
            ("alt-f4"@, AppAction::Quit),
            ("ctrl-shift-w"@, AppAction::CloseBuffer),
            ("ctrl-shift-W"@, AppAction::CloseBuffer),
            ("ctrl-shift-n"@, AppAction::NewWindow),
            ("ctrl-shift-N"@, AppAction::NewWindow),
            ("ctrl-shift-,"@, AppAction::OpenConfig),
            ("ctrl-shift-r"@, AppAction::ReloadNvim),
            ("ctrl-shift-R"@, AppAction::ReloadNvim),
            ("ctrl-shift-o"@, AppAction::OpenFile),
            ("ctrl-alt-o"@, AppAction::OpenFolder),
            ("ctrl-shift-v"@, AppAction::Paste),
            ("ctrl-shift-c"@, AppAction::Copy),
            ("ctrl-shift-x"@, AppAction::Cut),
            ("ctrl-shift-a"@, AppAction::SelectAll),
            ("ctrl-shift-z"@, AppAction::Redo),
        ]
    }
}

/// The abstract content of a list of key bindings.
pub open spec fn bindings_view(v: Seq<KeyBinding>) -> Seq<(Seq<char>, AppAction)> {
    v.map_values(|b: KeyBinding| (b.keystroke@, b.action))
}

/// The key bindings of the platform `os` (see `keymap_for`).
pub fn default_keymap(os: TargetOs) -> (res: Vec<KeyBinding>)
    ensures
        bindings_view(res@) == keymap_for(os),
{
    let mut v: Vec<KeyBinding> = Vec::new();
    if os == TargetOs::MacOs {
        v.push(KeyBinding { keystroke: String::from_str("cmd-q"), action: AppAction::Quit });
        v.push(KeyBinding { keystroke: String::from_str("cmd-w"), action: AppAction::CloseBuffer });
        v.push(KeyBinding { keystroke: String::from_str("cmd-W"), action: AppAction::CloseBuffer });
        v.push(KeyBinding { keystroke: String::from_str("cmd-shift-n"), action: AppAction::NewWindow });
        v.push(KeyBinding { keystroke: String::from_str("cmd-shift-N"), action: AppAction::NewWindow });
        v.push(KeyBinding { keystroke: String::from_str("cmd-,"), action: AppAction::OpenConfig });
        v.push(KeyBinding { keystroke: String::from_str("cmd-shift-r"), action: AppAction::ReloadNvim });
        v.push(KeyBinding { keystroke: String::from_str("cmd-shift-R"), action: AppAction::ReloadNvim });
        v.push(KeyBinding { keystroke: String::from_str("cmd-o"), action: AppAction::OpenFile });
        v.push(KeyBinding { keystroke: String::from_str("cmd-alt-o"), action: AppAction::OpenFolder });
        v.push(KeyBinding { keystroke: String::from_str("cmd-shift-o"), action: AppAction::OpenFolder });
        v.push(KeyBinding { keystroke: String::from_str("cmd-v"), action: AppAction::Paste });
        v.push(KeyBinding { keystroke: String::from_str("cmd-V"), action: AppAction::Paste });
        v.push(KeyBinding { keystroke: String::from_str("cmd-c"), action: AppAction::Copy });
        v.push(KeyBinding { keystroke: String::from_str("cmd-C"), action: AppAction::Copy });
        v.push(KeyBinding { keystroke: String::from_str("cmd-x"), action: AppAction::Cut });
        v.push(KeyBinding { keystroke: String::from_str("cmd-X"), action: AppAction::Cut });
        v.push(KeyBinding { keystroke: String::from_str("cmd-a"), action: AppAction::SelectAll });
        v.push(KeyBinding { keystroke: String::from_str("cmd-A"), action: AppAction::SelectAll });
        v.push(KeyBinding { keystroke: String::from_str("cmd-z"), action: AppAction::Undo });
        v.push(KeyBinding { keystroke: String::from_str("cmd-shift-z"), action: AppAction::Redo });
        v.push(KeyBinding { keystroke: String::from_str("cmd-shift-Z"), action: AppAction::Redo });
        v.push(KeyBinding { keystroke: String::from_str("escape"), action: AppAction::Escape });
        v.push(KeyBinding { keystroke: String::from_str("ctrl-["), action: AppAction::Escape });
    } else {
        v.push(KeyBinding { keystroke: String::from_str("ctrl-shift-q"), action: AppAction::Quit });
        v.push(KeyBinding { keystroke: String::from_str("alt-f4"), action: AppAction::Quit });
        v.push(KeyBinding { keystroke: String::from_str("ctrl-shift-w"), action: AppAction::CloseBuffer });
        v.push(KeyBinding { keystroke: String::from_str("ctrl-shift-W"), action: AppAction::CloseBuffer });
        v.push(KeyBinding { keystroke: String::from_str("ctrl-shift-n"), action: AppAction::NewWindow });
        v.push(KeyBinding { keystroke: String::from_str("ctrl-shift-N"), action: AppAction::NewWindow });
        v.push(KeyBinding { keystroke: String::from_str("ctrl-shift-,"), action: AppAction::OpenConfig });
        v.push(KeyBinding { keystroke: String::from_str("ctrl-shift-r"), action: AppAction::ReloadNvim });
        v.push(KeyBinding { keystroke: String::from_str("ctrl-shift-R"), action: AppAction::ReloadNvim });
        v.push(KeyBinding { keystroke: String::from_str("ctrl-shift-o"), action: AppAction::OpenFile });
        v.push(KeyBinding { keystroke: String::from_str("ctrl-alt-o"), action: AppAction::OpenFolder });
        v.push(KeyBinding { keystroke: String::from_str("ctrl-shift-v"), action: AppAction::Paste });
        v.push(KeyBinding { keystroke: String::from_str("ctrl-shift-c"), action: AppAction::Copy });
        v.push(KeyBinding { keystroke: String::from_str("ctrl-shift-x"), action: AppAction::Cut });
        v.push(KeyBinding { keystroke: String::from_str("ctrl-shift-a"), action: AppAction::SelectAll });
        v.push(KeyBinding { keystroke: String::from_str("ctrl-shift-z"), action: AppAction::Redo });
    }
    proof {
        assert(bindings_view(v@) =~= keymap_for(os));
    }
    v
}

/// The abstract content of a menu entry.
pub enum MenuView {
    Action { label: Seq<char>, shortcut: Seq<char>, action: AppAction },
    Submenu { label: Seq<char>, items: Seq<MenuView> },
    Separator,
}

/// An entry of a menu: a command with its label and the shortcut shown for
/// it, a submenu, or a separator line.
#[derive(Debug)]
pub enum MenuItem {
    Action { label: String, shortcut: String, action: AppAction },
    Submenu { label: String, items: Vec<MenuItem> },
    Separator,
}

impl MenuItem {
    /// An entry that runs `action`, labelled `label` and showing `shortcut`.
    pub fn action(label: &str, shortcut: &str, action: AppAction) -> (res: Self)
        ensures
            menu_view(res) == (MenuView::Action { label: label@, shortcut: shortcut@, action }),
    {
        MenuItem::Action { label: String::from_str(label), shortcut: String::from_str(shortcut), action }
    }

    /// An entry that opens the submenu `items`.
    pub fn submenu(label: &str, items: Vec<MenuItem>) -> (res: Self)
        ensures
            menu_view(res) == (MenuView::Submenu { label: label@, items: menu_items_view(items@) }),
    {
        let res = MenuItem::Submenu { label: String::from_str(label), items };
        proof {
            assert(menu_view(res)->items =~= menu_items_view(items@));
        }
        res
    }

    /// A separator line.
    pub fn separator() -> (res: Self)
        ensures
            menu_view(res) == MenuView::Separator,
    {
        MenuItem::Separator
    }
}

/// The abstract content of `e`.
pub open spec fn menu_view(e: MenuItem) -> MenuView
    decreases e,
{
    match e {
        MenuItem::Action { label, shortcut, action } => MenuView::Action {
            label: label@,
            shortcut: shortcut@,
            action,
        },
        MenuItem::Submenu { label, items } => MenuView::Submenu {
            label: label@,
            items: Seq::new(
                items@.len(),
                |i: int|
                    if 0 <= i < items@.len() {
                        menu_view(items[i])
                    } else {
                        MenuView::Separator
                    },
            ),
        },
        MenuItem::Separator => MenuView::Separator,
    }
}

/// The view of a command entry.
pub open spec fn menu_action(label: Seq<char>, shortcut: Seq<char>, action: AppAction) -> MenuView {
    MenuView::Action { label, shortcut, action }
}

/// The abstract content of a list of entries.
pub open spec fn menu_items_view(v: Seq<MenuItem>) -> Seq<MenuView> {
    v.map_values(|e: MenuItem| menu_view(e))
}

/// The File menu of the in-window menu (Linux and Windows).
pub open spec fn file_menu() -> Seq<MenuView> {
    seq![
        menu_action("New Window"@, "Ctrl+Shift+N"@, AppAction::NewWindow),
        MenuView::Separator,
        menu_action("Open File..."@, "Ctrl+Shift+O"@, AppAction::OpenFile),
        menu_action("Open Folder..."@, "Ctrl+Alt+O"@, AppAction::OpenFolder),
        MenuView::Separator,
        menu_action("Close Buffer"@, "Ctrl+Shift+W"@, AppAction::CloseBuffer),
    ]
}

/// The Edit menu of the in-window menu (Linux and Windows).
pub open spec fn edit_menu() -> Seq<MenuView> {
    seq![
        menu_action("Undo"@, "Ctrl+Shift+Z"@, AppAction::Undo),
        menu_action("Redo"@, "Ctrl+Shift+Y"@, AppAction::Redo),
        MenuView::Separator,
        menu_action("Cut"@, "Ctrl+Shift+X"@, AppAction::Cut),
        menu_action("Copy"@, "Ctrl+Shift+C"@, AppAction::Copy),
        menu_action("Paste"@, "Ctrl+Shift+V"@, AppAction::Paste),
        menu_action("Select All"@, "Ctrl+Shift+A"@, AppAction::SelectAll),
    ]
}

/// The in-window main menu (Linux and Windows): the application's own
/// commands, then the File and Edit submenus, then Exit.
pub open spec fn main_menu_spec() -> Seq<MenuView> {
    seq![
        menu_action("About Zenvi"@, ""@, AppAction::ShowAbout),
        MenuView::Separator,
        menu_action("Open Neovim Config"@, "Ctrl+Shift+,"@, AppAction::OpenConfig),
        menu_action("Reload Neovim"@, "Ctrl+Shift+R"@, AppAction::ReloadNvim),
        menu_action("Install Shell Command"@, ""@, AppAction::InstallCli),
        MenuView::Separator,
        MenuView::Submenu { label: "File"@, items: file_menu() },
        MenuView::Submenu { label: "Edit"@, items: edit_menu() },
        MenuView::Separator,
        menu_action("Exit Zenvi"@, "Ctrl+Shift+Q"@, AppAction::Quit),
    ]
}

/// The entries of the File menu (see `file_menu`).
pub fn file_menu_items() -> (res: Vec<MenuItem>)
    ensures
        menu_items_view(res@) == file_menu(),
{
    let mut v: Vec<MenuItem> = Vec::new();
    v.push(MenuItem::action("New Window", "Ctrl+Shift+N", AppAction::NewWindow));
    v.push(MenuItem::separator());
    v.push(MenuItem::action("Open File...", "Ctrl+Shift+O", AppAction::OpenFile));
    v.push(MenuItem::action("Open Folder...", "Ctrl+Alt+O", AppAction::OpenFolder));
    v.push(MenuItem::separator());
    v.push(MenuItem::action("Close Buffer", "Ctrl+Shift+W", AppAction::CloseBuffer));
    proof {
        assert(menu_items_view(v@) =~= file_menu());
    }
    v
}

/// The entries of the Edit menu (see `edit_menu`).
pub fn edit_menu_items() -> (res: Vec<MenuItem>)
    ensures
        menu_items_view(res@) == edit_menu(),
{
    let mut v: Vec<MenuItem> = Vec::new();
    v.push(MenuItem::action("Undo", "Ctrl+Shift+Z", AppAction::Undo));
    v.push(MenuItem::action("Redo", "Ctrl+Shift+Y", AppAction::Redo));
    v.push(MenuItem::separator());
    v.push(MenuItem::action("Cut", "Ctrl+Shift+X", AppAction::Cut));
    v.push(MenuItem::action("Copy", "Ctrl+Shift+C", AppAction::Copy));
    v.push(MenuItem::action("Paste", "Ctrl+Shift+V", AppAction::Paste));
    v.push(MenuItem::action("Select All", "Ctrl+Shift+A", AppAction::SelectAll));
    proof {
        assert(menu_items_view(v@) =~= edit_menu());
    }
    v
}

/// The entries of the in-window main menu (see `main_menu_spec`).
pub fn build_main_menu() -> (res: Vec<MenuItem>)
    ensures
        menu_items_view(res@) == main_menu_spec(),
{
    let mut v: Vec<MenuItem> = Vec::new();
    v.push(MenuItem::action("About Zenvi", "", AppAction::ShowAbout));
    v.push(MenuItem::separator());
    v.push(MenuItem::action("Open Neovim Config", "Ctrl+Shift+,", AppAction::OpenConfig));
    v.push(MenuItem::action("Reload Neovim", "Ctrl+Shift+R", AppAction::ReloadNvim));
    v.push(MenuItem::action("Install Shell Command", "", AppAction::InstallCli));
    v.push(MenuItem::separator());
    v.push(MenuItem::submenu("File", file_menu_items()));
    v.push(MenuItem::submenu("Edit", edit_menu_items()));
    v.push(MenuItem::separator());
    v.push(MenuItem::action("Exit Zenvi", "Ctrl+Shift+Q", AppAction::Quit));
    proof {
        assert(menu_items_view(v@) =~= main_menu_spec());
    }
    v
}

/// The application menu of the macOS menu bar.
pub open spec fn app_menu_macos_spec() -> Seq<MenuView> {
    seq![
        menu_action("About Zenvi"@, ""@, AppAction::ShowAbout),
        MenuView::Separator,
        menu_action("Open Neovim Config"@, ""@, AppAction::OpenConfig),
        MenuView::Separator,
        menu_action("Reload Neovim"@, ""@, AppAction::ReloadNvim),
        menu_action("Install Shell Command"@, ""@, AppAction::InstallCli),
        MenuView::Separator,
        menu_action("Quit Zenvi"@, ""@, AppAction::Quit),
    ]
}

fn app_menu_macos() -> (res: Vec<MenuItem>)
    ensures
        menu_items_view(res@) == app_menu_macos_spec(),
{
    let mut v: Vec<MenuItem> = Vec::new();
    v.push(MenuItem::action("About Zenvi", "", AppAction::ShowAbout));
    v.push(MenuItem::separator());
    v.push(MenuItem::action("Open Neovim Config", "", AppAction::OpenConfig));
    v.push(MenuItem::separator());
    v.push(MenuItem::action("Reload Neovim", "", AppAction::ReloadNvim));
    v.push(MenuItem::action("Install Shell Command", "", AppAction::InstallCli));
    v.push(MenuItem::separator());
    v.push(MenuItem::action("Quit Zenvi", "", AppAction::Quit));
    proof {
        assert(menu_items_view(v@) =~= app_menu_macos_spec());
    }
    v
}

/// The File menu of the macOS menu bar.
pub open spec fn file_menu_macos_spec() -> Seq<MenuView> {
    seq![
        menu_action("New Window"@, ""@, AppAction::NewWindow),
        MenuView::Separator,
        menu_action("Open File..."@, ""@, AppAction::OpenFile),
        menu_action("Open Folder..."@, ""@, AppAction::OpenFolder),
        MenuView::Separator,
        menu_action("Close Window"@, ""@, AppAction::CloseBuffer),
    ]
}

fn file_menu_macos() -> (res: Vec<MenuItem>)
    ensures
        menu_items_view(res@) == file_menu_macos_spec(),
{
    let mut v: Vec<MenuItem> = Vec::new();
    v.push(MenuItem::action("New Window", "", AppAction::NewWindow));
    v.push(MenuItem::separator());
    v.push(MenuItem::action("Open File...", "", AppAction::OpenFile));
    v.push(MenuItem::action("Open Folder...", "", AppAction::OpenFolder));
    v.push(MenuItem::separator());
    v.push(MenuItem::action("Close Window", "", AppAction::CloseBuffer));
    proof {
        assert(menu_items_view(v@) =~= file_menu_macos_spec());
    }
    v
}

/// The File menu of the menu bar elsewhere, with the application's own commands.
pub open spec fn file_menu_bar_spec() -> Seq<MenuView> {
    seq![
        menu_action("New Window"@, ""@, AppAction::NewWindow),
        MenuView::Separator,
        menu_action("Open File..."@, ""@, AppAction::OpenFile),
        menu_action("Open Folder..."@, ""@, AppAction::OpenFolder),
        menu_action("Open Neovim Config"@, ""@, AppAction::OpenConfig),
        MenuView::Separator,
        menu_action("Reload Neovim"@, ""@, AppAction::ReloadNvim),
        menu_action("Install Shell Command"@, ""@, AppAction::InstallCli),
        MenuView::Separator,
        menu_action("Close Window"@, ""@, AppAction::CloseBuffer),
        MenuView::Separator,
        menu_action("Exit"@, ""@, AppAction::Quit),
    ]
}

fn file_menu_bar() -> (res: Vec<MenuItem>)
    ensures
        menu_items_view(res@) == file_menu_bar_spec(),
{
    let mut v: Vec<MenuItem> = Vec::new();
    v.push(MenuItem::action("New Window", "", AppAction::NewWindow));
    v.push(MenuItem::separator());
    v.push(MenuItem::action("Open File...", "", AppAction::OpenFile));
    v.push(MenuItem::action("Open Folder...", "", AppAction::OpenFolder));
    v.push(MenuItem::action("Open Neovim Config", "", AppAction::OpenConfig));
    v.push(MenuItem::separator());
    v.push(MenuItem::action("Reload Neovim", "", AppAction::ReloadNvim));
    v.push(MenuItem::action("Install Shell Command", "", AppAction::InstallCli));
    v.push(MenuItem::separator());
    v.push(MenuItem::action("Close Window", "", AppAction::CloseBuffer));
    v.push(MenuItem::separator());
    v.push(MenuItem::action("Exit", "", AppAction::Quit));
    proof {
        assert(menu_items_view(v@) =~= file_menu_bar_spec());
    }
    v
}

/// The Edit menu of the menu bar.
pub open spec fn edit_menu_bar_spec() -> Seq<MenuView> {
    seq![
        menu_action("Undo"@, ""@, AppAction::Undo),
        menu_action("Redo"@, ""@, AppAction::Redo),
        MenuView::Separator,
        menu_action("Cut"@, ""@, AppAction::Cut),
        menu_action("Copy"@, ""@, AppAction::Copy),
        menu_action("Paste"@, ""@, AppAction::Paste),
        menu_action("Select All"@, ""@, AppAction::SelectAll),
    ]
}

fn edit_menu_bar() -> (res: Vec<MenuItem>)
    ensures
        menu_items_view(res@) == edit_menu_bar_spec(),
{
    let mut v: Vec<MenuItem> = Vec::new();
    v.push(MenuItem::action("Undo", "", AppAction::Undo));
    v.push(MenuItem::action("Redo", "", AppAction::Redo));
    v.push(MenuItem::separator());
    v.push(MenuItem::action("Cut", "", AppAction::Cut));
    v.push(MenuItem::action("Copy", "", AppAction::Copy));
    v.push(MenuItem::action("Paste", "", AppAction::Paste));
    v.push(MenuItem::action("Select All", "", AppAction::SelectAll));
    proof {
        assert(menu_items_view(v@) =~= edit_menu_bar_spec());
    }
    v
}

/// The menu bar the system shows: on macOS the application menu, File and
/// Edit; elsewhere File (with the application's own commands) and Edit.
/// Shortcuts are shown from the key bindings, not from the entries.
pub open spec fn menu_bar_for(os: TargetOs) -> Seq<MenuView> {
    if os == TargetOs::MacOs {
        seq![
            MenuView::Submenu { label: "Zenvi"@, items: app_menu_macos_spec() },
            MenuView::Submenu { label: "File"@, items: file_menu_macos_spec() },
            MenuView::Submenu { label: "Edit"@, items: edit_menu_bar_spec() },
        ]
    } else {
        seq![
            MenuView::Submenu { label: "File"@, items: file_menu_bar_spec() },
            MenuView::Submenu { label: "Edit"@, items: edit_menu_bar_spec() },
        ]
    }
}

/// The system menu bar's menus (see `menu_bar_for`).
pub fn app_menu_bar(os: TargetOs) -> (res: Vec<MenuItem>)
    ensures
        menu_items_view(res@) == menu_bar_for(os),
{
    let mut bar: Vec<MenuItem> = Vec::new();
    if os == TargetOs::MacOs {
        bar.push(MenuItem::submenu("Zenvi", app_menu_macos()));
        bar.push(MenuItem::submenu("File", file_menu_macos()));
        bar.push(MenuItem::submenu("Edit", edit_menu_bar()));
    } else {
        bar.push(MenuItem::submenu("File", file_menu_bar()));
        bar.push(MenuItem::submenu("Edit", edit_menu_bar()));
    }
    proof {
        assert(menu_items_view(bar@) =~= menu_bar_for(os));
    }
    bar
}

} // verus!
