use zenvi::actions::{app_menu_bar, build_main_menu, default_keymap, edit_menu_items, file_menu_items, AppAction, MenuItem};
use zenvi::platform::TargetOs;

fn bound(os: TargetOs, key: &str) -> Option<AppAction> {
    default_keymap(os).into_iter().find(|b| b.keystroke == key).map(|b| b.action)
}

#[test]
fn keymaps_per_platform() {
    assert_eq!(default_keymap(TargetOs::MacOs).len(), 24);
    assert_eq!(default_keymap(TargetOs::Linux).len(), 16);
    assert_eq!(bound(TargetOs::MacOs, "cmd-shift-r"), Some(AppAction::ReloadNvim));
    assert_eq!(bound(TargetOs::MacOs, "ctrl-["), Some(AppAction::Escape));
    assert_eq!(bound(TargetOs::Linux, "alt-f4"), Some(AppAction::Quit));
    assert_eq!(bound(TargetOs::Windows, "ctrl-shift-z"), Some(AppAction::Redo));
    assert_eq!(bound(TargetOs::Linux, "cmd-q"), None);
}

fn labels(items: &[MenuItem]) -> Vec<String> {
    items
        .iter()
        .map(|e| match e {
            MenuItem::Action { label, .. } => label.clone(),
            MenuItem::Submenu { label, .. } => format!("{}>", label),
            MenuItem::Separator => "-".to_string(),
        })
        .collect()
}

#[test]
fn in_window_menus() {
    assert_eq!(labels(&file_menu_items()), vec!["New Window", "-", "Open File...", "Open Folder...", "-", "Close Buffer"]);
    assert_eq!(labels(&edit_menu_items()), vec!["Undo", "Redo", "-", "Cut", "Copy", "Paste", "Select All"]);
    let main = build_main_menu();
    assert_eq!(
        labels(&main),
        vec!["About Zenvi", "-", "Open Neovim Config", "Reload Neovim", "Install Shell Command", "-", "File>", "Edit>", "-", "Exit Zenvi"]
    );
    match &main[9] {
        MenuItem::Action { shortcut, action, .. } => {
            assert_eq!(shortcut, "Ctrl+Shift+Q");
            assert_eq!(*action, AppAction::Quit);
        }
        _ => panic!("expected an action"),
    }
}

#[test]
fn system_menu_bars() {
    assert_eq!(labels(&app_menu_bar(TargetOs::MacOs)), vec!["Zenvi>", "File>", "Edit>"]);
    let bar = app_menu_bar(TargetOs::Linux);
    assert_eq!(labels(&bar), vec!["File>", "Edit>"]);
    match &bar[0] {
        MenuItem::Submenu { items, .. } => assert_eq!(labels(items).last().map(|s| s.as_str()), Some("Exit")),
        _ => panic!("expected a submenu"),
    }
}
