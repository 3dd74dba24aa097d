//! Key presses in Neovim's key notation (`nvim_input`).
use crate::text::{
    ascii_upper, chars_eq, chars_of, eq_ignore_ascii_case, eq_ignore_case, to_ascii_upper,
};
use crate::platform::TargetOs;
use vstd::prelude::*;

verus! {

/// The modifier keys held during a key press.
#[derive(Debug, Clone, Copy, PartialEq, Eq, Structural, Default)]
pub struct Modifiers {
    pub control: bool,
    pub alt: bool,
    pub shift: bool,
    /// The platform key: Command on macOS, Super/Windows elsewhere.
    pub platform: bool,
    pub function: bool,
}

/// A key press: the key's name and the modifiers held with it.
#[derive(Debug)]
pub struct Keystroke {
    pub modifiers: Modifiers,
    pub key: String,
    pub key_char: Option<String>,
}

/// A key-down event.
#[derive(Debug)]
pub struct KeyDownEvent {
    pub keystroke: Keystroke,
    pub is_held: bool,
}

/// The keys of the application's menu shortcuts: q w o r n , v c x a z,
/// upper or lower case.
pub open spec fn is_menu_char(c: char) -> bool {
    c == 'q' || c == 'Q' || c == 'w' || c == 'W' || c == 'o' || c == 'O' || c == 'r' || c == 'R'
        || c == 'n' || c == 'N' || c == ',' || c == 'v' || c == 'V' || c == 'c' || c == 'C' || c
        == 'x' || c == 'X' || c == 'a' || c == 'A' || c == 'z' || c == 'Z'
}

/// A key named by one menu-shortcut character.
pub open spec fn is_menu_key(k: Seq<char>) -> bool {
    k.len() == 1 && is_menu_char(k[0])
}

/// The key press is one of the system's own shortcuts on `os`.
pub open spec fn is_system_shortcut(
    k: Seq<char>,
    ctrl: bool,
    alt: bool,
    shift: bool,
    cmd: bool,
    os: TargetOs,
) -> bool {
    match os {
        TargetOs::MacOs => cmd && is_menu_key(k),
        _ => (alt && (k == "F4"@ || k == "f4"@)) || (ctrl && alt && (k == "o"@ || k
            == "O"@)) || (ctrl && shift && is_menu_key(k)),
    }
}

/// The key is a modifier key by itself (Shift, Ctrl, Caps Lock, ...), in
/// any ASCII case.  The key names are looked up by their length, and the
/// five-letter ones are only `shift` and `super`: `alt_l` and `alt_r` are
/// therefore not among them and are sent on like any other named key.
pub open spec fn is_modifier_key(k: Seq<char>) -> bool {
    eq_ignore_ascii_case(k, "fn"@) || eq_ignore_ascii_case(k, "alt"@) || eq_ignore_ascii_case(
        k,
        "cmd"@,
    ) || eq_ignore_ascii_case(k, "ctrl"@) || eq_ignore_ascii_case(k, "meta"@)
        || eq_ignore_ascii_case(k, "shift"@) || eq_ignore_ascii_case(k, "super"@)
        || eq_ignore_ascii_case(k, "shift_l"@) || eq_ignore_ascii_case(k, "shift_r"@)
        || eq_ignore_ascii_case(k, "control"@) || eq_ignore_ascii_case(k, "control_l"@)
        || eq_ignore_ascii_case(k, "control_r"@) || eq_ignore_ascii_case(k, "meta_l"@)
        || eq_ignore_ascii_case(k, "meta_r"@) || eq_ignore_ascii_case(k, "super_l"@)
        || eq_ignore_ascii_case(k, "super_r"@) || eq_ignore_ascii_case(k, "command"@)
        || eq_ignore_ascii_case(k, "platform"@) || eq_ignore_ascii_case(k, "capslock"@)
        || eq_ignore_ascii_case(k, "caps_lock"@) || eq_ignore_ascii_case(k, "numlock"@)
        || eq_ignore_ascii_case(k, "num_lock"@) || eq_ignore_ascii_case(k, "scrolllock"@)
        || eq_ignore_ascii_case(k, "scroll_lock"@) || eq_ignore_ascii_case(k, "function"@)
        || eq_ignore_ascii_case(k, "iso_level3_shift"@) || eq_ignore_ascii_case(k, "mode_switch"@)
}

/// The Neovim name of a special key, if the key is one.
pub open spec fn special_key_name(k: Seq<char>) -> Option<Seq<char>> {
    if eq_ignore_ascii_case(k, "enter"@) || eq_ignore_ascii_case(k, "return"@) || k == "\r"@ || k
        == "\n"@ {
        Some("CR"@)
    } else if eq_ignore_ascii_case(k, "escape"@) || eq_ignore_ascii_case(k, "esc"@) || k
        == "\x1b"@ {
        Some("Esc"@)
    } else if eq_ignore_ascii_case(k, "backspace"@) || eq_ignore_ascii_case(k, "bs"@) || k
        == "\x08"@ || k == "\u{7f}"@ {
        Some("BS"@)
    } else if eq_ignore_ascii_case(k, "tab"@) || k == "\t"@ {
        Some("Tab"@)
    } else if eq_ignore_ascii_case(k, "space"@) {
        Some("Space"@)
    } else if eq_ignore_ascii_case(k, "up"@) {
        Some("Up"@)
    } else if eq_ignore_ascii_case(k, "down"@) {
        Some("Down"@)
    } else if eq_ignore_ascii_case(k, "left"@) {
        Some("Left"@)
    } else if eq_ignore_ascii_case(k, "right"@) {
        Some("Right"@)
    } else if eq_ignore_ascii_case(k, "pageup"@) || eq_ignore_ascii_case(k, "page_up"@) {
        Some("PageUp"@)
    } else if eq_ignore_ascii_case(k, "pagedown"@) || eq_ignore_ascii_case(k, "page_down"@) {
        Some("PageDown"@)
    } else if eq_ignore_ascii_case(k, "home"@) {
        Some("Home"@)
    } else if eq_ignore_ascii_case(k, "end"@) {
        Some("End"@)
    } else if eq_ignore_ascii_case(k, "insert"@) {
        Some("Insert"@)
    } else if eq_ignore_ascii_case(k, "delete"@) || eq_ignore_ascii_case(k, "del"@) {
        Some("Del"@)
    } else if eq_ignore_ascii_case(k, "f1"@) {
        Some("F1"@)
    } else if eq_ignore_ascii_case(k, "f2"@) {
        Some("F2"@)
    } else if eq_ignore_ascii_case(k, "f3"@) {
        Some("F3"@)
    } else if eq_ignore_ascii_case(k, "f4"@) {
        Some("F4"@)
    } else if eq_ignore_ascii_case(k, "f5"@) {
        Some("F5"@)
    } else if eq_ignore_ascii_case(k, "f6"@) {
        Some("F6"@)
    } else if eq_ignore_ascii_case(k, "f7"@) {
        Some("F7"@)
    } else if eq_ignore_ascii_case(k, "f8"@) {
        Some("F8"@)
    } else if eq_ignore_ascii_case(k, "f9"@) {
        Some("F9"@)
    } else if eq_ignore_ascii_case(k, "f10"@) {
        Some("F10"@)
    } else if eq_ignore_ascii_case(k, "f11"@) {
        Some("F11"@)
    } else if eq_ignore_ascii_case(k, "f12"@) {
        Some("F12"@)
    } else if k == "<"@ {
        Some("lt"@)
    } else {
        None
    }
}

/// The modifier prefix of Neovim's key notation: `C-`, `M-`, `D-`, `S-` in
/// that order, for Ctrl, Alt, the platform key and Shift.
pub open spec fn modifier_prefix(ctrl: bool, alt: bool, cmd: bool, shift: bool) -> Seq<char> {
    (if ctrl {
        "C-"@
    } else {
        Seq::empty()
    }) + (if alt {
        "M-"@
    } else {
        Seq::empty()
    }) + (if cmd {
        "D-"@
    } else {
        Seq::empty()
    }) + (if shift {
        "S-"@
    } else {
        Seq::empty()
    })
}

/// What Neovim is sent for a press of key `k` with the given modifiers, or
/// `None` when the press is not for Neovim: a system shortcut or a modifier
/// key on its own.  A special key becomes `<Name>` (with a modifier
/// prefix, where Shift does not count for Space and `<`); another key with
/// Ctrl, Alt or the platform key becomes `<prefix key>`; a plain key is
/// sent as it is, `<` as `<lt>`, and a lower-case ASCII letter with Shift
/// in upper case.
pub open spec fn key_to_nvim(
    k: Seq<char>,
    ctrl: bool,
    alt: bool,
    shift: bool,
    cmd: bool,
    os: TargetOs,
) -> Option<Seq<char>> {
    if is_system_shortcut(k, ctrl, alt, shift, cmd, os) {
        None
    } else if is_modifier_key(k) {
        None
    } else if let Some(name) = special_key_name(k) {
        let is_space_or_lt = eq_ignore_ascii_case(k, "space"@) || k == "<"@;
        let has_shift = shift && !is_space_or_lt;
        if !ctrl && !alt && !cmd && !has_shift {
            Some("<"@ + name + ">"@)
        } else {
            Some("<"@ + modifier_prefix(ctrl, alt, cmd, has_shift) + name + ">"@)
        }
    } else if ctrl || alt || cmd {
        Some("<"@ + modifier_prefix(ctrl, alt, cmd, shift) + k + ">"@)
    } else if k == "<"@ {
        Some("<lt>"@)
    } else if shift && k.len() == 1 && 'a' <= k[0] <= 'z' {
        Some(seq![ascii_upper(k[0])])
    } else {
        Some(k)
    }
}

/// Whether the character is a menu-shortcut key.
fn menu_char(c: char) -> (res: bool)
    ensures
        res == is_menu_char(c),
{
    c == 'q' || c == 'Q' || c == 'w' || c == 'W' || c == 'o' || c == 'O' || c == 'r' || c == 'R'
        || c == 'n' || c == 'N' || c == ',' || c == 'v' || c == 'V' || c == 'c' || c == 'C' || c
        == 'x' || c == 'X' || c == 'a' || c == 'A' || c == 'z' || c == 'Z'
}

fn menu_key(k: &Vec<char>) -> (res: bool)
    ensures
        res == is_menu_key(k@),
{
    k.len() == 1 && menu_char(k[0])
}

fn system_shortcut(k: &Vec<char>, ctrl: bool, alt: bool, shift: bool, cmd: bool, os: TargetOs) -> (res:
    bool)
    ensures
        res == is_system_shortcut(k@, ctrl, alt, shift, cmd, os),
{
    match os {
        TargetOs::MacOs => cmd && menu_key(k),
        _ => (alt && (chars_eq(k, "F4") || chars_eq(k, "f4"))) || (ctrl && alt && (
        chars_eq(k, "o") || chars_eq(k, "O"))) || (ctrl && shift && menu_key(k)),
    }
}

fn modifier_key(k: &Vec<char>) -> (res: bool)
    ensures
        res == is_modifier_key(k@),
{
    eq_ignore_case(k, "fn") || eq_ignore_case(k, "alt") || eq_ignore_case(k, "cmd")
        || eq_ignore_case(k, "ctrl") || eq_ignore_case(k, "meta") || eq_ignore_case(k, "shift")
        || eq_ignore_case(k, "super") || eq_ignore_case(k, "shift_l") || eq_ignore_case(
        k,
        "shift_r",
    ) || eq_ignore_case(k, "control") || eq_ignore_case(k, "control_l") || eq_ignore_case(
        k,
        "control_r",
    ) || eq_ignore_case(k, "meta_l")
        || eq_ignore_case(k, "meta_r") || eq_ignore_case(k, "super_l") || eq_ignore_case(
        k,
        "super_r",
    ) || eq_ignore_case(k, "command") || eq_ignore_case(k, "platform") || eq_ignore_case(
        k,
        "capslock",
    ) || eq_ignore_case(k, "caps_lock") || eq_ignore_case(k, "numlock") || eq_ignore_case(
        k,
        "num_lock",
    ) || eq_ignore_case(k, "scrolllock") || eq_ignore_case(k, "scroll_lock") || eq_ignore_case(
        k,
        "function",
    ) || eq_ignore_case(k, "iso_level3_shift") || eq_ignore_case(k, "mode_switch")
}

fn special_name(k: &Vec<char>) -> (res: Option<&'static str>)
    ensures
        match res {
            Some(n) => special_key_name(k@) == Some(n@),
            None => special_key_name(k@) is None,
        },
{
    if eq_ignore_case(k, "enter") || eq_ignore_case(k, "return") || chars_eq(k, "\r") || chars_eq(
        k,
        "\n",
    ) {
        Some("CR")
    } else if eq_ignore_case(k, "escape") || eq_ignore_case(k, "esc") || chars_eq(k, "\x1b") {
        Some("Esc")
    } else if eq_ignore_case(k, "backspace") || eq_ignore_case(k, "bs") || chars_eq(k, "\x08")
        || chars_eq(k, "\u{7f}") {
        Some("BS")
    } else if eq_ignore_case(k, "tab") || chars_eq(k, "\t") {
        Some("Tab")
    } else if eq_ignore_case(k, "space") {
        Some("Space")
    } else if eq_ignore_case(k, "up") {
        Some("Up")
    } else if eq_ignore_case(k, "down") {
        Some("Down")
    } else if eq_ignore_case(k, "left") {
        Some("Left")
    } else if eq_ignore_case(k, "right") {
        Some("Right")
    } else if eq_ignore_case(k, "pageup") || eq_ignore_case(k, "page_up") {
        Some("PageUp")
    } else if eq_ignore_case(k, "pagedown") || eq_ignore_case(k, "page_down") {
        Some("PageDown")
    } else if eq_ignore_case(k, "home") {
        Some("Home")
    } else if eq_ignore_case(k, "end") {
        Some("End")
    } else if eq_ignore_case(k, "insert") {
        Some("Insert")
    } else if eq_ignore_case(k, "delete") || eq_ignore_case(k, "del") {
        Some("Del")
    } else if eq_ignore_case(k, "f1") {
        Some("F1")
    } else if eq_ignore_case(k, "f2") {
        Some("F2")
    } else if eq_ignore_case(k, "f3") {
        Some("F3")
    } else if eq_ignore_case(k, "f4") {
        Some("F4")
    } else if eq_ignore_case(k, "f5") {
        Some("F5")
    } else if eq_ignore_case(k, "f6") {
        Some("F6")
    } else if eq_ignore_case(k, "f7") {
        Some("F7")
    } else if eq_ignore_case(k, "f8") {
        Some("F8")
    } else if eq_ignore_case(k, "f9") {
        Some("F9")
    } else if eq_ignore_case(k, "f10") {
        Some("F10")
    } else if eq_ignore_case(k, "f11") {
        Some("F11")
    } else if eq_ignore_case(k, "f12") {
        Some("F12")
    } else if chars_eq(k, "<") {
        Some("lt")
    } else {
        None
    }
}

/// Appends the modifier prefix to `out`.
fn push_prefix(out: &mut String, ctrl: bool, alt: bool, cmd: bool, shift: bool)
    ensures
        final(out)@ == old(out)@ + modifier_prefix(ctrl, alt, cmd, shift),
{
    let ghost start = out@;
    if ctrl {
        out.append("C-");
    }
    let ghost a = out@;
    if alt {
        out.append("M-");
    }
    let ghost b = out@;
    if cmd {
        out.append("D-");
    }
    let ghost c = out@;
    if shift {
        out.append("S-");
    }
    proof {
        assert(a == start + (if ctrl {
            "C-"@
        } else {
            Seq::empty()
        }));
        assert(b == a + (if alt {
            "M-"@
        } else {
            Seq::empty()
        }));
        assert(c == b + (if cmd {
            "D-"@
        } else {
            Seq::empty()
        }));
        assert(out@ =~= start + modifier_prefix(ctrl, alt, cmd, shift));
    }
}

/// What Neovim is sent for a key press, or `None` when
/// it is not for Neovim (see `key_to_nvim`).  `os` says which system
/// shortcuts the application keeps for itself: on macOS Command with a
/// menu letter; elsewhere Ctrl+Shift with a menu letter, Ctrl+Alt+O and
/// Alt+F4.
pub fn key_event_to_nvim(event: &KeyDownEvent, os: TargetOs) -> (res: Option<String>)
    ensures
        match res {
            Some(s) => key_to_nvim(
                event.keystroke.key@,
                event.keystroke.modifiers.control,
                event.keystroke.modifiers.alt,
                event.keystroke.modifiers.shift,
                event.keystroke.modifiers.platform,
                os,
            ) == Some(s@),
            None => key_to_nvim(
                event.keystroke.key@,
                event.keystroke.modifiers.control,
                event.keystroke.modifiers.alt,
                event.keystroke.modifiers.shift,
                event.keystroke.modifiers.platform,
                os,
            ) is None,
        },
{
    let raw = &event.keystroke.key;
    let k = chars_of(raw.as_str());
    let mods = event.keystroke.modifiers;
    let ctrl = mods.control;
    let alt = mods.alt;
    let shift = mods.shift;
    let cmd = mods.platform;
    if system_shortcut(&k, ctrl, alt, shift, cmd, os) {
        return None;
    }
    if modifier_key(&k) {
        return None;
    }
    if let Some(name) = special_name(&k) {
        let is_space_or_lt = eq_ignore_case(&k, "space") || chars_eq(&k, "<");
        let has_shift = shift && !is_space_or_lt;
        let mut out = String::from_str("<");
        if ctrl || alt || cmd || has_shift {
            push_prefix(&mut out, ctrl, alt, cmd, has_shift);
        }
        let ghost before = out@;
        out.append(name);
        out.append(">");
        proof {
            if !ctrl && !alt && !cmd && !has_shift {
                assert(out@ =~= "<"@ + name@ + ">"@);
            } else {
                assert(out@ =~= "<"@ + modifier_prefix(ctrl, alt, cmd, has_shift) + name@ + ">"@);
            }
        }
        return Some(out);
    }
    if ctrl || alt || cmd {
        let mut out = String::from_str("<");
        push_prefix(&mut out, ctrl, alt, cmd, shift);
        out.append(raw.as_str());
        out.append(">");
        proof {
            assert(out@ =~= "<"@ + modifier_prefix(ctrl, alt, cmd, shift) + k@ + ">"@);
        }
        return Some(out);
    }
    if chars_eq(&k, "<") {
        Some(String::from_str("<lt>"))
    } else if shift && k.len() == 1 && 'a' <= k[0] && k[0] <= 'z' {
        let mut out = String::new();
        crate::text::push_char(&mut out, to_ascii_upper(k[0]));
        proof {
            assert(out@ =~= seq![ascii_upper(k@[0])]);
        }
        Some(out)
    } else {
        Some(String::from_str(raw.as_str()))
    }
}

/// Where a key press goes in the window.
#[derive(Debug)]
pub struct KeyRoute {
    /// The in-window menu (Linux and Windows) closes.
    pub close_menu: bool,
    /// What Neovim is sent, if anything.
    pub send: Option<String>,
}

/// The names under which the Escape key reaches the window.
pub open spec fn is_escape_name(k: Seq<char>) -> bool {
    k == "escape"@ || k == "Esc"@ || k == "\u{1b}"@
}

/// Routes a key press: while the in-window menu is open (on Linux and
/// Windows) any key closes it, and Escape goes no further; while an input
/// method composes text, keys are left to it; otherwise the key goes to
/// Neovim as `key_event_to_nvim` writes it.
pub fn route_key(event: &KeyDownEvent, os: TargetOs, menu_open: bool, composing: bool) -> (res:
    KeyRoute)
    ensures
        res.close_menu == (menu_open && os != TargetOs::MacOs),
        ({
            let k = event.keystroke.key@;
            let m = event.keystroke.modifiers;
            if (res.close_menu && is_escape_name(k)) || composing {
                res.send is None
            } else {
                match res.send {
                    Some(s) => key_to_nvim(k, m.control, m.alt, m.shift, m.platform, os) == Some(
                        s@,
                    ),
                    None => key_to_nvim(k, m.control, m.alt, m.shift, m.platform, os) is None,
                }
            }
        }),
{
    let close_menu = menu_open && os != TargetOs::MacOs;
    if close_menu {
        let k = event.keystroke.key.as_str();
        if crate::text::str_eq(k, "escape") || crate::text::str_eq(k, "Esc") || crate::text::str_eq(
            k,
            "\u{1b}",
        ) {
            return KeyRoute { close_menu, send: None };
        }
    }
    if composing {
        return KeyRoute { close_menu, send: None };
    }
    KeyRoute { close_menu, send: key_event_to_nvim(event, os) }
}

} // verus!
