use zenvi::input::{key_event_to_nvim, route_key, KeyDownEvent, Keystroke, Modifiers};
use zenvi::platform::TargetOs;

fn make_event(key: &str, ctrl: bool, alt: bool, shift: bool, cmd: bool) -> KeyDownEvent {
    KeyDownEvent {
        keystroke: Keystroke {
            modifiers: Modifiers { control: ctrl, alt, shift, platform: cmd, function: false },
            key: key.to_string(),
            key_char: None,
        },
        is_held: false,
    }
}

fn nvim(key: &str, ctrl: bool, alt: bool, shift: bool, cmd: bool) -> Option<String> {
    key_event_to_nvim(&make_event(key, ctrl, alt, shift, cmd), TargetOs::Linux)
}

fn nvim_mac(key: &str, ctrl: bool, alt: bool, shift: bool, cmd: bool) -> Option<String> {
    key_event_to_nvim(&make_event(key, ctrl, alt, shift, cmd), TargetOs::MacOs)
}

#[test]
fn test_modifier_keys_ignored() {
    assert_eq!(nvim("shift", false, false, true, false), None);
    assert_eq!(nvim("Shift", false, false, true, false), None);
    assert_eq!(nvim("control", true, false, false, false), None);
    assert_eq!(nvim("ctrl", true, false, false, false), None);
    assert_eq!(nvim("alt", false, true, false, false), None);
    assert_eq!(nvim("super", false, false, false, true), None);
    assert_eq!(nvim("capslock", false, false, false, false), None);
}

#[test]
fn test_shift_g_and_uppercase() {
    assert_eq!(nvim("G", false, false, true, false), Some("G".to_string()));
    assert_eq!(nvim("g", false, false, true, false), Some("G".to_string()));
    assert_eq!(nvim("$", false, false, true, false), Some("$".to_string()));
}

#[test]
fn test_escape_variants() {
    assert_eq!(nvim("escape", false, false, false, false), Some("<Esc>".to_string()));
    assert_eq!(nvim("Escape", false, false, false, false), Some("<Esc>".to_string()));
    assert_eq!(nvim("esc", false, false, false, false), Some("<Esc>".to_string()));
    assert_eq!(nvim("\u{1b}", false, false, false, false), Some("<Esc>".to_string()));
    assert_eq!(nvim("\x1b", false, false, false, false), Some("<Esc>".to_string()));
}

#[test]
fn test_enter_variants() {
    assert_eq!(nvim("enter", false, false, false, false), Some("<CR>".to_string()));
    assert_eq!(nvim("Return", false, false, false, false), Some("<CR>".to_string()));
    assert_eq!(nvim("\r", false, false, false, false), Some("<CR>".to_string()));
    assert_eq!(nvim("\n", false, false, false, false), Some("<CR>".to_string()));
}

#[test]
fn test_backspace_and_tab() {
    assert_eq!(nvim("Backspace", false, false, false, false), Some("<BS>".to_string()));
    assert_eq!(nvim("\x08", false, false, false, false), Some("<BS>".to_string()));
    assert_eq!(nvim("\u{7f}", false, false, false, false), Some("<BS>".to_string()));
    assert_eq!(nvim("Tab", false, false, false, false), Some("<Tab>".to_string()));
    assert_eq!(nvim("\t", false, false, false, false), Some("<Tab>".to_string()));
}

#[test]
fn test_arrows_and_modifiers() {
    assert_eq!(nvim("Up", false, false, false, false), Some("<Up>".to_string()));
    assert_eq!(nvim("c", true, false, false, false), Some("<C-c>".to_string()));
    assert_eq!(nvim("s", false, false, false, true), Some("<D-s>".to_string()));
}

#[test]
fn input_test_system_shortcuts_ignored() {
    assert_eq!(nvim("q", true, false, true, false), None);
    assert_eq!(nvim("o", true, false, true, false), None);
    assert_eq!(nvim("o", true, true, false, false), None);
    assert_eq!(nvim("r", true, false, true, false), None);
    assert_eq!(nvim("R", true, false, true, false), None);
    assert_eq!(nvim("v", true, false, true, false), None);
    assert_eq!(nvim("c", true, false, true, false), None);
    assert_eq!(nvim("x", true, false, true, false), None);
    assert_eq!(nvim("z", true, false, true, false), None);
    assert_eq!(nvim("F4", false, true, false, false), None);
}

#[test]
fn input_test_system_shortcuts_ignored_on_macos() {
    assert_eq!(nvim_mac("q", false, false, false, true), None);
    assert_eq!(nvim_mac("o", false, false, false, true), None);
    assert_eq!(nvim_mac("r", false, false, false, true), None);
    assert_eq!(nvim_mac("R", false, false, true, true), None);
    assert_eq!(nvim_mac("r", false, false, true, true), None);
    assert_eq!(nvim_mac("v", false, false, false, true), None);
    assert_eq!(nvim_mac("c", false, false, false, true), None);
    assert_eq!(nvim_mac("x", false, false, false, true), None);
    assert!(nvim_mac("z", false, false, false, true).is_none());
}

#[test]
fn test_plain_characters_route_to_nvim() {
    assert_eq!(nvim("a", false, false, false, false), Some("a".to_string()));
    assert_eq!(nvim("c", false, false, false, false), Some("c".to_string()));
    assert_eq!(nvim("e", false, false, false, false), Some("e".to_string()));
    assert_eq!(nvim("1", false, false, false, false), Some("1".to_string()));
    assert_eq!(nvim(":", false, false, false, false), Some(":".to_string()));
    assert_eq!(nvim("<", false, false, false, false), Some("<lt>".to_string()));
}

#[test]
fn macos_command_keys_not_reserved_reach_nvim() {
    assert_eq!(nvim_mac("s", false, false, false, true), Some("<D-s>".to_string()));
}

#[test]
fn ctrl_shift_letters_other_than_shortcuts_reach_nvim() {
    assert_eq!(nvim("b", true, false, true, false), Some("<C-S-b>".to_string()));
    assert_eq!(nvim("a", true, false, true, false), None);
}

#[test]
fn keys_close_the_menu_and_escape_stops_there() {
    let esc = make_event("escape", false, false, false, false);
    let r = route_key(&esc, TargetOs::Linux, true, false);
    assert!(r.close_menu);
    assert_eq!(r.send, None);

    let a = make_event("a", false, false, false, false);
    let r = route_key(&a, TargetOs::Linux, true, false);
    assert!(r.close_menu);
    assert_eq!(r.send, Some("a".to_string()));

    let r = route_key(&esc, TargetOs::MacOs, true, false);
    assert!(!r.close_menu);
    assert_eq!(r.send, Some("<Esc>".to_string()));
}

#[test]
fn keys_wait_while_text_is_composed() {
    let a = make_event("a", false, false, false, false);
    let r = route_key(&a, TargetOs::Linux, false, true);
    assert!(!r.close_menu);
    assert_eq!(r.send, None);
    let r = route_key(&a, TargetOs::Linux, false, false);
    assert_eq!(r.send, Some("a".to_string()));
}

#[test]
fn side_specific_modifier_keys() {
    // The five-letter names are looked up among `shift` and `super` only,
    // so the side-specific Alt keys go on to Neovim.
    assert_eq!(nvim("Alt_L", false, true, false, false), Some("<M-Alt_L>".to_string()));
    assert_eq!(nvim("alt_r", false, false, false, false), Some("alt_r".to_string()));
    assert_eq!(nvim("shift_r", false, false, true, false), None);
    assert_eq!(nvim("ISO_Level3_Shift", false, false, false, false), None);
}
