//! What each special key is sent to Neovim as.
use crate::input::{is_modifier_key, key_to_nvim, modifier_prefix, special_key_name};
use crate::platform::TargetOs;
use crate::text::{ascii_lower, eq_ignore_ascii_case};
use vstd::prelude::*;

verus! {

/// Each special key, pressed alone, is sent to Neovim as that same key's
/// name in Neovim's notation: Enter/Return as `<CR>`, Escape as `<Esc>`,
/// Backspace as `<BS>`, Tab as `<Tab>`, Space as `<Space>`, the arrows as
/// `<Up>`, `<Down>`, `<Left>`, `<Right>`, Page Up as `<PageUp>`, Page Down
/// as `<PageDown>`, Home, End, Insert, Delete as `<Del>`, F1 to F12 as
/// `<F1>` to `<F12>`, and `<` as `<lt>`; key names match in any ASCII case.
pub proof fn lemma_special_keys_keep_their_names(k: Seq<char>, os: TargetOs)
    ensures
        (eq_ignore_ascii_case(k, "enter"@) || eq_ignore_ascii_case(k, "return"@) || k == "\r"@ || k == "\n"@) ==> key_to_nvim(k, false, false, false, false, os) == Some("<CR>"@),
        (eq_ignore_ascii_case(k, "escape"@) || eq_ignore_ascii_case(k, "esc"@) || k == "\x1b"@) ==> key_to_nvim(k, false, false, false, false, os) == Some("<Esc>"@),
        (eq_ignore_ascii_case(k, "backspace"@) || eq_ignore_ascii_case(k, "bs"@) || k == "\x08"@ || k == "\u{7f}"@) ==> key_to_nvim(k, false, false, false, false, os) == Some("<BS>"@),
        (eq_ignore_ascii_case(k, "tab"@) || k == "\t"@) ==> key_to_nvim(k, false, false, false, false, os) == Some("<Tab>"@),
        eq_ignore_ascii_case(k, "space"@) ==> key_to_nvim(k, false, false, false, false, os) == Some("<Space>"@),
        eq_ignore_ascii_case(k, "up"@) ==> key_to_nvim(k, false, false, false, false, os) == Some("<Up>"@),
        eq_ignore_ascii_case(k, "down"@) ==> key_to_nvim(k, false, false, false, false, os) == Some("<Down>"@),
        eq_ignore_ascii_case(k, "left"@) ==> key_to_nvim(k, false, false, false, false, os) == Some("<Left>"@),
        eq_ignore_ascii_case(k, "right"@) ==> key_to_nvim(k, false, false, false, false, os) == Some("<Right>"@),
        (eq_ignore_ascii_case(k, "pageup"@) || eq_ignore_ascii_case(k, "page_up"@)) ==> key_to_nvim(k, false, false, false, false, os) == Some("<PageUp>"@),
        (eq_ignore_ascii_case(k, "pagedown"@) || eq_ignore_ascii_case(k, "page_down"@)) ==> key_to_nvim(k, false, false, false, false, os) == Some("<PageDown>"@),
        eq_ignore_ascii_case(k, "home"@) ==> key_to_nvim(k, false, false, false, false, os) == Some("<Home>"@),
        eq_ignore_ascii_case(k, "end"@) ==> key_to_nvim(k, false, false, false, false, os) == Some("<End>"@),
        eq_ignore_ascii_case(k, "insert"@) ==> key_to_nvim(k, false, false, false, false, os) == Some("<Insert>"@),
        (eq_ignore_ascii_case(k, "delete"@) || eq_ignore_ascii_case(k, "del"@)) ==> key_to_nvim(k, false, false, false, false, os) == Some("<Del>"@),
        eq_ignore_ascii_case(k, "f1"@) ==> key_to_nvim(k, false, false, false, false, os) == Some("<F1>"@),
        eq_ignore_ascii_case(k, "f2"@) ==> key_to_nvim(k, false, false, false, false, os) == Some("<F2>"@),
        eq_ignore_ascii_case(k, "f3"@) ==> key_to_nvim(k, false, false, false, false, os) == Some("<F3>"@),
        eq_ignore_ascii_case(k, "f4"@) ==> key_to_nvim(k, false, false, false, false, os) == Some("<F4>"@),
        eq_ignore_ascii_case(k, "f5"@) ==> key_to_nvim(k, false, false, false, false, os) == Some("<F5>"@),
        eq_ignore_ascii_case(k, "f6"@) ==> key_to_nvim(k, false, false, false, false, os) == Some("<F6>"@),
        eq_ignore_ascii_case(k, "f7"@) ==> key_to_nvim(k, false, false, false, false, os) == Some("<F7>"@),
        eq_ignore_ascii_case(k, "f8"@) ==> key_to_nvim(k, false, false, false, false, os) == Some("<F8>"@),
        eq_ignore_ascii_case(k, "f9"@) ==> key_to_nvim(k, false, false, false, false, os) == Some("<F9>"@),
        eq_ignore_ascii_case(k, "f10"@) ==> key_to_nvim(k, false, false, false, false, os) == Some("<F10>"@),
        eq_ignore_ascii_case(k, "f11"@) ==> key_to_nvim(k, false, false, false, false, os) == Some("<F11>"@),
        eq_ignore_ascii_case(k, "f12"@) ==> key_to_nvim(k, false, false, false, false, os) == Some("<F12>"@),
        k == "<"@ ==> key_to_nvim(k, false, false, false, false, os) == Some("<lt>"@),
{
    if eq_ignore_ascii_case(k, "enter"@) || eq_ignore_ascii_case(k, "return"@) || k == "\r"@ || k == "\n"@ {
        lemma_key_named_cr(k, os);
    }
    if eq_ignore_ascii_case(k, "escape"@) || eq_ignore_ascii_case(k, "esc"@) || k == "\x1b"@ {
        lemma_key_named_esc(k, os);
    }
    if eq_ignore_ascii_case(k, "backspace"@) || eq_ignore_ascii_case(k, "bs"@) || k == "\x08"@ || k == "\u{7f}"@ {
        lemma_key_named_bs(k, os);
    }
    if eq_ignore_ascii_case(k, "tab"@) || k == "\t"@ {
        lemma_key_named_tab(k, os);
    }
    if eq_ignore_ascii_case(k, "space"@) {
        lemma_key_named_space(k, os);
    }
    if eq_ignore_ascii_case(k, "up"@) {
        lemma_key_named_up(k, os);
    }
    if eq_ignore_ascii_case(k, "down"@) {
        lemma_key_named_down(k, os);
    }
    if eq_ignore_ascii_case(k, "left"@) {
        lemma_key_named_left(k, os);
    }
    if eq_ignore_ascii_case(k, "right"@) {
        lemma_key_named_right(k, os);
    }
    if eq_ignore_ascii_case(k, "pageup"@) || eq_ignore_ascii_case(k, "page_up"@) {
        lemma_key_named_pageup(k, os);
    }
    if eq_ignore_ascii_case(k, "pagedown"@) || eq_ignore_ascii_case(k, "page_down"@) {
        lemma_key_named_pagedown(k, os);
    }
    if eq_ignore_ascii_case(k, "home"@) {
        lemma_key_named_home(k, os);
    }
    if eq_ignore_ascii_case(k, "end"@) {
        lemma_key_named_end(k, os);
    }
    if eq_ignore_ascii_case(k, "insert"@) {
        lemma_key_named_insert(k, os);
    }
    if eq_ignore_ascii_case(k, "delete"@) || eq_ignore_ascii_case(k, "del"@) {
        lemma_key_named_del(k, os);
    }
    if eq_ignore_ascii_case(k, "f1"@) {
        lemma_key_named_f1(k, os);
    }
    if eq_ignore_ascii_case(k, "f2"@) {
        lemma_key_named_f2(k, os);
    }
    if eq_ignore_ascii_case(k, "f3"@) {
        lemma_key_named_f3(k, os);
    }
    if eq_ignore_ascii_case(k, "f4"@) {
        lemma_key_named_f4(k, os);
    }
    if eq_ignore_ascii_case(k, "f5"@) {
        lemma_key_named_f5(k, os);
    }
    if eq_ignore_ascii_case(k, "f6"@) {
        lemma_key_named_f6(k, os);
    }
    if eq_ignore_ascii_case(k, "f7"@) {
        lemma_key_named_f7(k, os);
    }
    if eq_ignore_ascii_case(k, "f8"@) {
        lemma_key_named_f8(k, os);
    }
    if eq_ignore_ascii_case(k, "f9"@) {
        lemma_key_named_f9(k, os);
    }
    if eq_ignore_ascii_case(k, "f10"@) {
        lemma_key_named_f10(k, os);
    }
    if eq_ignore_ascii_case(k, "f11"@) {
        lemma_key_named_f11(k, os);
    }
    if eq_ignore_ascii_case(k, "f12"@) {
        lemma_key_named_f12(k, os);
    }
    if k == "<"@ {
        lemma_key_named_lt(k, os);
    }
}

/// Keys that match different names up to ASCII case differ where the
/// names differ.
proof fn lemma_ci_ne(k: Seq<char>, a: Seq<char>, b: Seq<char>, i: int)
    requires
        eq_ignore_ascii_case(k, a),
        a.len() == b.len(),
        0 <= i < a.len(),
        ascii_lower(a[i]) != ascii_lower(b[i]),
    ensures
        !eq_ignore_ascii_case(k, b),
{
    assert(ascii_lower(k[i]) == ascii_lower(a[i]));
}

/// The key names that key translation compares with, character by
/// character.
proof fn lemma_key_literals()
    ensures
        "fn"@ == seq!['f', 'n'],
        "alt"@ == seq!['a', 'l', 't'],
        "cmd"@ == seq!['c', 'm', 'd'],
        "ctrl"@ == seq!['c', 't', 'r', 'l'],
        "meta"@ == seq!['m', 'e', 't', 'a'],
        "shift"@ == seq!['s', 'h', 'i', 'f', 't'],
        "super"@ == seq!['s', 'u', 'p', 'e', 'r'],
        "shift_l"@ == seq!['s', 'h', 'i', 'f', 't', '_', 'l'],
        "shift_r"@ == seq!['s', 'h', 'i', 'f', 't', '_', 'r'],
        "control"@ == seq!['c', 'o', 'n', 't', 'r', 'o', 'l'],
        "control_l"@ == seq!['c', 'o', 'n', 't', 'r', 'o', 'l', '_', 'l'],
        "control_r"@ == seq!['c', 'o', 'n', 't', 'r', 'o', 'l', '_', 'r'],
        "meta_l"@ == seq!['m', 'e', 't', 'a', '_', 'l'],
        "meta_r"@ == seq!['m', 'e', 't', 'a', '_', 'r'],
        "super_l"@ == seq!['s', 'u', 'p', 'e', 'r', '_', 'l'],
        "super_r"@ == seq!['s', 'u', 'p', 'e', 'r', '_', 'r'],
        "command"@ == seq!['c', 'o', 'm', 'm', 'a', 'n', 'd'],
        "platform"@ == seq!['p', 'l', 'a', 't', 'f', 'o', 'r', 'm'],
        "capslock"@ == seq!['c', 'a', 'p', 's', 'l', 'o', 'c', 'k'],
        "caps_lock"@ == seq!['c', 'a', 'p', 's', '_', 'l', 'o', 'c', 'k'],
        "numlock"@ == seq!['n', 'u', 'm', 'l', 'o', 'c', 'k'],
        "num_lock"@ == seq!['n', 'u', 'm', '_', 'l', 'o', 'c', 'k'],
        "scrolllock"@ == seq!['s', 'c', 'r', 'o', 'l', 'l', 'l', 'o', 'c', 'k'],
        "scroll_lock"@ == seq!['s', 'c', 'r', 'o', 'l', 'l', '_', 'l', 'o', 'c', 'k'],
        "function"@ == seq!['f', 'u', 'n', 'c', 't', 'i', 'o', 'n'],
        "iso_level3_shift"@ == seq!['i', 's', 'o', '_', 'l', 'e', 'v', 'e', 'l', '3', '_', 's', 'h', 'i', 'f', 't'],
        "mode_switch"@ == seq!['m', 'o', 'd', 'e', '_', 's', 'w', 'i', 't', 'c', 'h'],
        "enter"@ == seq!['e', 'n', 't', 'e', 'r'],
        "return"@ == seq!['r', 'e', 't', 'u', 'r', 'n'],
        "\r"@ == seq!['\u{d}'],
        "\n"@ == seq!['\u{a}'],
        "escape"@ == seq!['e', 's', 'c', 'a', 'p', 'e'],
        "esc"@ == seq!['e', 's', 'c'],
        "\x1b"@ == seq!['\u{1b}'],
        "backspace"@ == seq!['b', 'a', 'c', 'k', 's', 'p', 'a', 'c', 'e'],
        "bs"@ == seq!['b', 's'],
        "\x08"@ == seq!['\u{8}'],
        "\u{7f}"@ == seq!['\u{7f}'],
        "tab"@ == seq!['t', 'a', 'b'],
        "\t"@ == seq!['\u{9}'],
        "space"@ == seq!['s', 'p', 'a', 'c', 'e'],
        "up"@ == seq!['u', 'p'],
        "down"@ == seq!['d', 'o', 'w', 'n'],
        "left"@ == seq!['l', 'e', 'f', 't'],
        "right"@ == seq!['r', 'i', 'g', 'h', 't'],
        "pageup"@ == seq!['p', 'a', 'g', 'e', 'u', 'p'],
        "page_up"@ == seq!['p', 'a', 'g', 'e', '_', 'u', 'p'],
        "pagedown"@ == seq!['p', 'a', 'g', 'e', 'd', 'o', 'w', 'n'],
        "page_down"@ == seq!['p', 'a', 'g', 'e', '_', 'd', 'o', 'w', 'n'],
        "home"@ == seq!['h', 'o', 'm', 'e'],
        "end"@ == seq!['e', 'n', 'd'],
        "insert"@ == seq!['i', 'n', 's', 'e', 'r', 't'],
        "delete"@ == seq!['d', 'e', 'l', 'e', 't', 'e'],
        "del"@ == seq!['d', 'e', 'l'],
        "f1"@ == seq!['f', '1'],
        "f2"@ == seq!['f', '2'],
        "f3"@ == seq!['f', '3'],
        "f4"@ == seq!['f', '4'],
        "f5"@ == seq!['f', '5'],
        "f6"@ == seq!['f', '6'],
        "f7"@ == seq!['f', '7'],
        "f8"@ == seq!['f', '8'],
        "f9"@ == seq!['f', '9'],
        "f10"@ == seq!['f', '1', '0'],
        "f11"@ == seq!['f', '1', '1'],
        "f12"@ == seq!['f', '1', '2'],
        "<"@ == seq!['<'],
        ">"@ == seq!['>'],
{
    reveal_strlit("fn");
    reveal_strlit("alt");
    reveal_strlit("cmd");
    reveal_strlit("ctrl");
    reveal_strlit("meta");
    reveal_strlit("shift");
    reveal_strlit("super");
    reveal_strlit("shift_l");
    reveal_strlit("shift_r");
    reveal_strlit("control");
    reveal_strlit("control_l");
    reveal_strlit("control_r");
    reveal_strlit("meta_l");
    reveal_strlit("meta_r");
    reveal_strlit("super_l");
    reveal_strlit("super_r");
    reveal_strlit("command");
    reveal_strlit("platform");
    reveal_strlit("capslock");
    reveal_strlit("caps_lock");
    reveal_strlit("numlock");
    reveal_strlit("num_lock");
    reveal_strlit("scrolllock");
    reveal_strlit("scroll_lock");
    reveal_strlit("function");
    reveal_strlit("iso_level3_shift");
    reveal_strlit("mode_switch");
    reveal_strlit("enter");
    reveal_strlit("return");
    reveal_strlit("\r");
    reveal_strlit("\n");
    reveal_strlit("escape");
    reveal_strlit("esc");
    reveal_strlit("\x1b");
    reveal_strlit("backspace");
    reveal_strlit("bs");
    reveal_strlit("\x08");
    reveal_strlit("\u{7f}");
    reveal_strlit("tab");
    reveal_strlit("\t");
    reveal_strlit("space");
    reveal_strlit("up");
    reveal_strlit("down");
    reveal_strlit("left");
    reveal_strlit("right");
    reveal_strlit("pageup");
    reveal_strlit("page_up");
    reveal_strlit("pagedown");
    reveal_strlit("page_down");
    reveal_strlit("home");
    reveal_strlit("end");
    reveal_strlit("insert");
    reveal_strlit("delete");
    reveal_strlit("del");
    reveal_strlit("f1");
    reveal_strlit("f2");
    reveal_strlit("f3");
    reveal_strlit("f4");
    reveal_strlit("f5");
    reveal_strlit("f6");
    reveal_strlit("f7");
    reveal_strlit("f8");
    reveal_strlit("f9");
    reveal_strlit("f10");
    reveal_strlit("f11");
    reveal_strlit("f12");
    reveal_strlit("<");
    reveal_strlit(">");
}

proof fn lemma_key_named_cr(k: Seq<char>, os: TargetOs)
    requires
        eq_ignore_ascii_case(k, "enter"@) || eq_ignore_ascii_case(k, "return"@) || k == "\r"@ || k == "\n"@,
    ensures
        key_to_nvim(k, false, false, false, false, os) == Some("<CR>"@),
{
    lemma_key_literals();
    reveal_strlit("CR");
    reveal_strlit("<CR>");
    if eq_ignore_ascii_case(k, "enter"@) {
        assert(k.len() == 5);
        lemma_ci_ne(k, "enter"@, "shift"@, 0);
        lemma_ci_ne(k, "enter"@, "super"@, 0);
    }
    if eq_ignore_ascii_case(k, "return"@) {
        assert(k.len() == 6);
        lemma_ci_ne(k, "return"@, "meta_l"@, 0);
        lemma_ci_ne(k, "return"@, "meta_r"@, 0);
    }
    if k == "\r"@ {
        assert(k.len() == 1);
    }
    if k == "\n"@ {
        assert(k.len() == 1);
    }
    assert("<"@ + "CR"@ + ">"@ =~= "<CR>"@);
}

proof fn lemma_key_named_esc(k: Seq<char>, os: TargetOs)
    requires
        eq_ignore_ascii_case(k, "escape"@) || eq_ignore_ascii_case(k, "esc"@) || k == "\x1b"@,
    ensures
        key_to_nvim(k, false, false, false, false, os) == Some("<Esc>"@),
{
    lemma_key_literals();
    reveal_strlit("Esc");
    reveal_strlit("<Esc>");
    if eq_ignore_ascii_case(k, "escape"@) {
        assert(k.len() == 6);
        lemma_ci_ne(k, "escape"@, "meta_l"@, 0);
        lemma_ci_ne(k, "escape"@, "meta_r"@, 0);
        lemma_ci_ne(k, "escape"@, "return"@, 0);
    }
    if eq_ignore_ascii_case(k, "esc"@) {
        assert(k.len() == 3);
        lemma_ci_ne(k, "esc"@, "alt"@, 0);
        lemma_ci_ne(k, "esc"@, "cmd"@, 0);
    }
    if k == "\x1b"@ {
        assert(k.len() == 1);
    }
    assert("<"@ + "Esc"@ + ">"@ =~= "<Esc>"@);
}

proof fn lemma_key_named_bs(k: Seq<char>, os: TargetOs)
    requires
        eq_ignore_ascii_case(k, "backspace"@) || eq_ignore_ascii_case(k, "bs"@) || k == "\x08"@ || k == "\u{7f}"@,
    ensures
        key_to_nvim(k, false, false, false, false, os) == Some("<BS>"@),
{
    lemma_key_literals();
    reveal_strlit("BS");
    reveal_strlit("<BS>");
    if eq_ignore_ascii_case(k, "backspace"@) {
        assert(k.len() == 9);
        lemma_ci_ne(k, "backspace"@, "control_l"@, 0);
        lemma_ci_ne(k, "backspace"@, "control_r"@, 0);
        lemma_ci_ne(k, "backspace"@, "caps_lock"@, 0);
    }
    if eq_ignore_ascii_case(k, "bs"@) {
        assert(k.len() == 2);
        lemma_ci_ne(k, "bs"@, "fn"@, 0);
    }
    if k == "\x08"@ {
        assert(k.len() == 1);
    }
    if k == "\u{7f}"@ {
        assert(k.len() == 1);
    }
    assert("<"@ + "BS"@ + ">"@ =~= "<BS>"@);
}

proof fn lemma_key_named_tab(k: Seq<char>, os: TargetOs)
    requires
        eq_ignore_ascii_case(k, "tab"@) || k == "\t"@,
    ensures
        key_to_nvim(k, false, false, false, false, os) == Some("<Tab>"@),
{
    lemma_key_literals();
    reveal_strlit("Tab");
    reveal_strlit("<Tab>");
    if eq_ignore_ascii_case(k, "tab"@) {
        assert(k.len() == 3);
        lemma_ci_ne(k, "tab"@, "alt"@, 0);
        lemma_ci_ne(k, "tab"@, "cmd"@, 0);
        lemma_ci_ne(k, "tab"@, "esc"@, 0);
    }
    if k == "\t"@ {
        assert(k.len() == 1);
    }
    assert("<"@ + "Tab"@ + ">"@ =~= "<Tab>"@);
}

proof fn lemma_key_named_space(k: Seq<char>, os: TargetOs)
    requires
        eq_ignore_ascii_case(k, "space"@),
    ensures
        key_to_nvim(k, false, false, false, false, os) == Some("<Space>"@),
{
    lemma_key_literals();
    reveal_strlit("Space");
    reveal_strlit("<Space>");
    if eq_ignore_ascii_case(k, "space"@) {
        assert(k.len() == 5);
        lemma_ci_ne(k, "space"@, "shift"@, 1);
        lemma_ci_ne(k, "space"@, "super"@, 1);
        lemma_ci_ne(k, "space"@, "enter"@, 0);
    }
    assert("<"@ + "Space"@ + ">"@ =~= "<Space>"@);
}

proof fn lemma_key_named_up(k: Seq<char>, os: TargetOs)
    requires
        eq_ignore_ascii_case(k, "up"@),
    ensures
        key_to_nvim(k, false, false, false, false, os) == Some("<Up>"@),
{
    lemma_key_literals();
    reveal_strlit("Up");
    reveal_strlit("<Up>");
    if eq_ignore_ascii_case(k, "up"@) {
        assert(k.len() == 2);
        lemma_ci_ne(k, "up"@, "fn"@, 0);
        lemma_ci_ne(k, "up"@, "bs"@, 0);
    }
    assert("<"@ + "Up"@ + ">"@ =~= "<Up>"@);
}

proof fn lemma_key_named_down(k: Seq<char>, os: TargetOs)
    requires
        eq_ignore_ascii_case(k, "down"@),
    ensures
        key_to_nvim(k, false, false, false, false, os) == Some("<Down>"@),
{
    lemma_key_literals();
    reveal_strlit("Down");
    reveal_strlit("<Down>");
    if eq_ignore_ascii_case(k, "down"@) {
        assert(k.len() == 4);
        lemma_ci_ne(k, "down"@, "ctrl"@, 0);
        lemma_ci_ne(k, "down"@, "meta"@, 0);
    }
    assert("<"@ + "Down"@ + ">"@ =~= "<Down>"@);
}

proof fn lemma_key_named_left(k: Seq<char>, os: TargetOs)
    requires
        eq_ignore_ascii_case(k, "left"@),
    ensures
        key_to_nvim(k, false, false, false, false, os) == Some("<Left>"@),
{
    lemma_key_literals();
    reveal_strlit("Left");
    reveal_strlit("<Left>");
    if eq_ignore_ascii_case(k, "left"@) {
        assert(k.len() == 4);
        lemma_ci_ne(k, "left"@, "ctrl"@, 0);
        lemma_ci_ne(k, "left"@, "meta"@, 0);
        lemma_ci_ne(k, "left"@, "down"@, 0);
    }
    assert("<"@ + "Left"@ + ">"@ =~= "<Left>"@);
}

proof fn lemma_key_named_right(k: Seq<char>, os: TargetOs)
    requires
        eq_ignore_ascii_case(k, "right"@),
    ensures
        key_to_nvim(k, false, false, false, false, os) == Some("<Right>"@),
{
    lemma_key_literals();
    reveal_strlit("Right");
    reveal_strlit("<Right>");
    if eq_ignore_ascii_case(k, "right"@) {
        assert(k.len() == 5);
        lemma_ci_ne(k, "right"@, "shift"@, 0);
        lemma_ci_ne(k, "right"@, "super"@, 0);
        lemma_ci_ne(k, "right"@, "enter"@, 0);
        lemma_ci_ne(k, "right"@, "space"@, 0);
    }
    assert("<"@ + "Right"@ + ">"@ =~= "<Right>"@);
}

proof fn lemma_key_named_pageup(k: Seq<char>, os: TargetOs)
    requires
        eq_ignore_ascii_case(k, "pageup"@) || eq_ignore_ascii_case(k, "page_up"@),
    ensures
        key_to_nvim(k, false, false, false, false, os) == Some("<PageUp>"@),
{
    lemma_key_literals();
    reveal_strlit("PageUp");
    reveal_strlit("<PageUp>");
    if eq_ignore_ascii_case(k, "pageup"@) {
        assert(k.len() == 6);
        lemma_ci_ne(k, "pageup"@, "meta_l"@, 0);
        lemma_ci_ne(k, "pageup"@, "meta_r"@, 0);
        lemma_ci_ne(k, "pageup"@, "return"@, 0);
        lemma_ci_ne(k, "pageup"@, "escape"@, 0);
    }
    if eq_ignore_ascii_case(k, "page_up"@) {
        assert(k.len() == 7);
        lemma_ci_ne(k, "page_up"@, "shift_l"@, 0);
        lemma_ci_ne(k, "page_up"@, "shift_r"@, 0);
        lemma_ci_ne(k, "page_up"@, "control"@, 0);
        lemma_ci_ne(k, "page_up"@, "super_l"@, 0);
        lemma_ci_ne(k, "page_up"@, "super_r"@, 0);
        lemma_ci_ne(k, "page_up"@, "command"@, 0);
        lemma_ci_ne(k, "page_up"@, "numlock"@, 0);
    }
    assert("<"@ + "PageUp"@ + ">"@ =~= "<PageUp>"@);
}

proof fn lemma_key_named_pagedown(k: Seq<char>, os: TargetOs)
    requires
        eq_ignore_ascii_case(k, "pagedown"@) || eq_ignore_ascii_case(k, "page_down"@),
    ensures
        key_to_nvim(k, false, false, false, false, os) == Some("<PageDown>"@),
{
    lemma_key_literals();
    reveal_strlit("PageDown");
    reveal_strlit("<PageDown>");
    if eq_ignore_ascii_case(k, "pagedown"@) {
        assert(k.len() == 8);
        lemma_ci_ne(k, "pagedown"@, "platform"@, 1);
        lemma_ci_ne(k, "pagedown"@, "capslock"@, 0);
        lemma_ci_ne(k, "pagedown"@, "num_lock"@, 0);
        lemma_ci_ne(k, "pagedown"@, "function"@, 0);
    }
    if eq_ignore_ascii_case(k, "page_down"@) {
        assert(k.len() == 9);
        lemma_ci_ne(k, "page_down"@, "control_l"@, 0);
        lemma_ci_ne(k, "page_down"@, "control_r"@, 0);
        lemma_ci_ne(k, "page_down"@, "caps_lock"@, 0);
        lemma_ci_ne(k, "page_down"@, "backspace"@, 0);
    }
    assert("<"@ + "PageDown"@ + ">"@ =~= "<PageDown>"@);
}

proof fn lemma_key_named_home(k: Seq<char>, os: TargetOs)
    requires
        eq_ignore_ascii_case(k, "home"@),
    ensures
        key_to_nvim(k, false, false, false, false, os) == Some("<Home>"@),
{
    lemma_key_literals();
    reveal_strlit("Home");
    reveal_strlit("<Home>");
    if eq_ignore_ascii_case(k, "home"@) {
        assert(k.len() == 4);
        lemma_ci_ne(k, "home"@, "ctrl"@, 0);
        lemma_ci_ne(k, "home"@, "meta"@, 0);
        lemma_ci_ne(k, "home"@, "down"@, 0);
        lemma_ci_ne(k, "home"@, "left"@, 0);
    }
    assert("<"@ + "Home"@ + ">"@ =~= "<Home>"@);
}

proof fn lemma_key_named_end(k: Seq<char>, os: TargetOs)
    requires
        eq_ignore_ascii_case(k, "end"@),
    ensures
        key_to_nvim(k, false, false, false, false, os) == Some("<End>"@),
{
    lemma_key_literals();
    reveal_strlit("End");
    reveal_strlit("<End>");
    if eq_ignore_ascii_case(k, "end"@) {
        assert(k.len() == 3);
        lemma_ci_ne(k, "end"@, "alt"@, 0);
        lemma_ci_ne(k, "end"@, "cmd"@, 0);
        lemma_ci_ne(k, "end"@, "esc"@, 1);
        lemma_ci_ne(k, "end"@, "tab"@, 0);
    }
    assert("<"@ + "End"@ + ">"@ =~= "<End>"@);
}

proof fn lemma_key_named_insert(k: Seq<char>, os: TargetOs)
    requires
        eq_ignore_ascii_case(k, "insert"@),
    ensures
        key_to_nvim(k, false, false, false, false, os) == Some("<Insert>"@),
{
    lemma_key_literals();
    reveal_strlit("Insert");
    reveal_strlit("<Insert>");
    if eq_ignore_ascii_case(k, "insert"@) {
        assert(k.len() == 6);
        lemma_ci_ne(k, "insert"@, "meta_l"@, 0);
        lemma_ci_ne(k, "insert"@, "meta_r"@, 0);
        lemma_ci_ne(k, "insert"@, "return"@, 0);
        lemma_ci_ne(k, "insert"@, "escape"@, 0);
        lemma_ci_ne(k, "insert"@, "pageup"@, 0);
    }
    assert("<"@ + "Insert"@ + ">"@ =~= "<Insert>"@);
}

proof fn lemma_key_named_del(k: Seq<char>, os: TargetOs)
    requires
        eq_ignore_ascii_case(k, "delete"@) || eq_ignore_ascii_case(k, "del"@),
    ensures
        key_to_nvim(k, false, false, false, false, os) == Some("<Del>"@),
{
    lemma_key_literals();
    reveal_strlit("Del");
    reveal_strlit("<Del>");
    if eq_ignore_ascii_case(k, "delete"@) {
        assert(k.len() == 6);
        lemma_ci_ne(k, "delete"@, "meta_l"@, 0);
        lemma_ci_ne(k, "delete"@, "meta_r"@, 0);
        lemma_ci_ne(k, "delete"@, "return"@, 0);
        lemma_ci_ne(k, "delete"@, "escape"@, 0);
        lemma_ci_ne(k, "delete"@, "pageup"@, 0);
        lemma_ci_ne(k, "delete"@, "insert"@, 0);
    }
    if eq_ignore_ascii_case(k, "del"@) {
        assert(k.len() == 3);
        lemma_ci_ne(k, "del"@, "alt"@, 0);
        lemma_ci_ne(k, "del"@, "cmd"@, 0);
        lemma_ci_ne(k, "del"@, "esc"@, 0);
        lemma_ci_ne(k, "del"@, "tab"@, 0);
        lemma_ci_ne(k, "del"@, "end"@, 0);
    }
    assert("<"@ + "Del"@ + ">"@ =~= "<Del>"@);
}

proof fn lemma_key_named_f1(k: Seq<char>, os: TargetOs)
    requires
        eq_ignore_ascii_case(k, "f1"@),
    ensures
        key_to_nvim(k, false, false, false, false, os) == Some("<F1>"@),
{
    lemma_key_literals();
    reveal_strlit("F1");
    reveal_strlit("<F1>");
    if eq_ignore_ascii_case(k, "f1"@) {
        assert(k.len() == 2);
        lemma_ci_ne(k, "f1"@, "fn"@, 1);
        lemma_ci_ne(k, "f1"@, "bs"@, 0);
        lemma_ci_ne(k, "f1"@, "up"@, 0);
    }
    assert("<"@ + "F1"@ + ">"@ =~= "<F1>"@);
}

proof fn lemma_key_named_f2(k: Seq<char>, os: TargetOs)
    requires
        eq_ignore_ascii_case(k, "f2"@),
    ensures
        key_to_nvim(k, false, false, false, false, os) == Some("<F2>"@),
{
    lemma_key_literals();
    reveal_strlit("F2");
    reveal_strlit("<F2>");
    if eq_ignore_ascii_case(k, "f2"@) {
        assert(k.len() == 2);
        lemma_ci_ne(k, "f2"@, "fn"@, 1);
        lemma_ci_ne(k, "f2"@, "bs"@, 0);
        lemma_ci_ne(k, "f2"@, "up"@, 0);
        lemma_ci_ne(k, "f2"@, "f1"@, 1);
    }
    assert("<"@ + "F2"@ + ">"@ =~= "<F2>"@);
}

proof fn lemma_key_named_f3(k: Seq<char>, os: TargetOs)
    requires
        eq_ignore_ascii_case(k, "f3"@),
    ensures
        key_to_nvim(k, false, false, false, false, os) == Some("<F3>"@),
{
    lemma_key_literals();
    reveal_strlit("F3");
    reveal_strlit("<F3>");
    if eq_ignore_ascii_case(k, "f3"@) {
        assert(k.len() == 2);
        lemma_ci_ne(k, "f3"@, "fn"@, 1);
        lemma_ci_ne(k, "f3"@, "bs"@, 0);
        lemma_ci_ne(k, "f3"@, "up"@, 0);
        lemma_ci_ne(k, "f3"@, "f1"@, 1);
        lemma_ci_ne(k, "f3"@, "f2"@, 1);
    }
    assert("<"@ + "F3"@ + ">"@ =~= "<F3>"@);
}

proof fn lemma_key_named_f4(k: Seq<char>, os: TargetOs)
    requires
        eq_ignore_ascii_case(k, "f4"@),
    ensures
        key_to_nvim(k, false, false, false, false, os) == Some("<F4>"@),
{
    lemma_key_literals();
    reveal_strlit("F4");
    reveal_strlit("<F4>");
    if eq_ignore_ascii_case(k, "f4"@) {
        assert(k.len() == 2);
        lemma_ci_ne(k, "f4"@, "fn"@, 1);
        lemma_ci_ne(k, "f4"@, "bs"@, 0);
        lemma_ci_ne(k, "f4"@, "up"@, 0);
        lemma_ci_ne(k, "f4"@, "f1"@, 1);
        lemma_ci_ne(k, "f4"@, "f2"@, 1);
        lemma_ci_ne(k, "f4"@, "f3"@, 1);
    }
    assert("<"@ + "F4"@ + ">"@ =~= "<F4>"@);
}

proof fn lemma_key_named_f5(k: Seq<char>, os: TargetOs)
    requires
        eq_ignore_ascii_case(k, "f5"@),
    ensures
        key_to_nvim(k, false, false, false, false, os) == Some("<F5>"@),
{
    lemma_key_literals();
    reveal_strlit("F5");
    reveal_strlit("<F5>");
    if eq_ignore_ascii_case(k, "f5"@) {
        assert(k.len() == 2);
        lemma_ci_ne(k, "f5"@, "fn"@, 1);
        lemma_ci_ne(k, "f5"@, "bs"@, 0);
        lemma_ci_ne(k, "f5"@, "up"@, 0);
        lemma_ci_ne(k, "f5"@, "f1"@, 1);
        lemma_ci_ne(k, "f5"@, "f2"@, 1);
        lemma_ci_ne(k, "f5"@, "f3"@, 1);
        lemma_ci_ne(k, "f5"@, "f4"@, 1);
    }
    assert("<"@ + "F5"@ + ">"@ =~= "<F5>"@);
}

proof fn lemma_key_named_f6(k: Seq<char>, os: TargetOs)
    requires
        eq_ignore_ascii_case(k, "f6"@),
    ensures
        key_to_nvim(k, false, false, false, false, os) == Some("<F6>"@),
{
    lemma_key_literals();
    reveal_strlit("F6");
    reveal_strlit("<F6>");
    if eq_ignore_ascii_case(k, "f6"@) {
        assert(k.len() == 2);
        lemma_ci_ne(k, "f6"@, "fn"@, 1);
        lemma_ci_ne(k, "f6"@, "bs"@, 0);
        lemma_ci_ne(k, "f6"@, "up"@, 0);
        lemma_ci_ne(k, "f6"@, "f1"@, 1);
        lemma_ci_ne(k, "f6"@, "f2"@, 1);
        lemma_ci_ne(k, "f6"@, "f3"@, 1);
        lemma_ci_ne(k, "f6"@, "f4"@, 1);
        lemma_ci_ne(k, "f6"@, "f5"@, 1);
    }
    assert("<"@ + "F6"@ + ">"@ =~= "<F6>"@);
}

proof fn lemma_key_named_f7(k: Seq<char>, os: TargetOs)
    requires
        eq_ignore_ascii_case(k, "f7"@),
    ensures
        key_to_nvim(k, false, false, false, false, os) == Some("<F7>"@),
{
    lemma_key_literals();
    reveal_strlit("F7");
    reveal_strlit("<F7>");
    if eq_ignore_ascii_case(k, "f7"@) {
        assert(k.len() == 2);
        lemma_ci_ne(k, "f7"@, "fn"@, 1);
        lemma_ci_ne(k, "f7"@, "bs"@, 0);
        lemma_ci_ne(k, "f7"@, "up"@, 0);
        lemma_ci_ne(k, "f7"@, "f1"@, 1);
        lemma_ci_ne(k, "f7"@, "f2"@, 1);
        lemma_ci_ne(k, "f7"@, "f3"@, 1);
        lemma_ci_ne(k, "f7"@, "f4"@, 1);
        lemma_ci_ne(k, "f7"@, "f5"@, 1);
        lemma_ci_ne(k, "f7"@, "f6"@, 1);
    }
    assert("<"@ + "F7"@ + ">"@ =~= "<F7>"@);
}

proof fn lemma_key_named_f8(k: Seq<char>, os: TargetOs)
    requires
        eq_ignore_ascii_case(k, "f8"@),
    ensures
        key_to_nvim(k, false, false, false, false, os) == Some("<F8>"@),
{
    lemma_key_literals();
    reveal_strlit("F8");
    reveal_strlit("<F8>");
    if eq_ignore_ascii_case(k, "f8"@) {
        assert(k.len() == 2);
        lemma_ci_ne(k, "f8"@, "fn"@, 1);
        lemma_ci_ne(k, "f8"@, "bs"@, 0);
        lemma_ci_ne(k, "f8"@, "up"@, 0);
        lemma_ci_ne(k, "f8"@, "f1"@, 1);
        lemma_ci_ne(k, "f8"@, "f2"@, 1);
        lemma_ci_ne(k, "f8"@, "f3"@, 1);
        lemma_ci_ne(k, "f8"@, "f4"@, 1);
        lemma_ci_ne(k, "f8"@, "f5"@, 1);
        lemma_ci_ne(k, "f8"@, "f6"@, 1);
        lemma_ci_ne(k, "f8"@, "f7"@, 1);
    }
    assert("<"@ + "F8"@ + ">"@ =~= "<F8>"@);
}

proof fn lemma_key_named_f9(k: Seq<char>, os: TargetOs)
    requires
        eq_ignore_ascii_case(k, "f9"@),
    ensures
        key_to_nvim(k, false, false, false, false, os) == Some("<F9>"@),
{
    lemma_key_literals();
    reveal_strlit("F9");
    reveal_strlit("<F9>");
    if eq_ignore_ascii_case(k, "f9"@) {
        assert(k.len() == 2);
        lemma_ci_ne(k, "f9"@, "fn"@, 1);
        lemma_ci_ne(k, "f9"@, "bs"@, 0);
        lemma_ci_ne(k, "f9"@, "up"@, 0);
        lemma_ci_ne(k, "f9"@, "f1"@, 1);
        lemma_ci_ne(k, "f9"@, "f2"@, 1);
        lemma_ci_ne(k, "f9"@, "f3"@, 1);
        lemma_ci_ne(k, "f9"@, "f4"@, 1);
        lemma_ci_ne(k, "f9"@, "f5"@, 1);
        lemma_ci_ne(k, "f9"@, "f6"@, 1);
        lemma_ci_ne(k, "f9"@, "f7"@, 1);
        lemma_ci_ne(k, "f9"@, "f8"@, 1);
    }
    assert("<"@ + "F9"@ + ">"@ =~= "<F9>"@);
}

proof fn lemma_key_named_f10(k: Seq<char>, os: TargetOs)
    requires
        eq_ignore_ascii_case(k, "f10"@),
    ensures
        key_to_nvim(k, false, false, false, false, os) == Some("<F10>"@),
{
    lemma_key_literals();
    reveal_strlit("F10");
    reveal_strlit("<F10>");
    if eq_ignore_ascii_case(k, "f10"@) {
        assert(k.len() == 3);
        lemma_ci_ne(k, "f10"@, "alt"@, 0);
        lemma_ci_ne(k, "f10"@, "cmd"@, 0);
        lemma_ci_ne(k, "f10"@, "esc"@, 0);
        lemma_ci_ne(k, "f10"@, "tab"@, 0);
        lemma_ci_ne(k, "f10"@, "end"@, 0);
        lemma_ci_ne(k, "f10"@, "del"@, 0);
    }
    assert("<"@ + "F10"@ + ">"@ =~= "<F10>"@);
}

proof fn lemma_key_named_f11(k: Seq<char>, os: TargetOs)
    requires
        eq_ignore_ascii_case(k, "f11"@),
    ensures
        key_to_nvim(k, false, false, false, false, os) == Some("<F11>"@),
{
    lemma_key_literals();
    reveal_strlit("F11");
    reveal_strlit("<F11>");
    if eq_ignore_ascii_case(k, "f11"@) {
        assert(k.len() == 3);
        lemma_ci_ne(k, "f11"@, "alt"@, 0);
        lemma_ci_ne(k, "f11"@, "cmd"@, 0);
        lemma_ci_ne(k, "f11"@, "esc"@, 0);
        lemma_ci_ne(k, "f11"@, "tab"@, 0);
        lemma_ci_ne(k, "f11"@, "end"@, 0);
        lemma_ci_ne(k, "f11"@, "del"@, 0);
        lemma_ci_ne(k, "f11"@, "f10"@, 2);
    }
    assert("<"@ + "F11"@ + ">"@ =~= "<F11>"@);
}

proof fn lemma_key_named_f12(k: Seq<char>, os: TargetOs)
    requires
        eq_ignore_ascii_case(k, "f12"@),
    ensures
        key_to_nvim(k, false, false, false, false, os) == Some("<F12>"@),
{
    lemma_key_literals();
    reveal_strlit("F12");
    reveal_strlit("<F12>");
    if eq_ignore_ascii_case(k, "f12"@) {
        assert(k.len() == 3);
        lemma_ci_ne(k, "f12"@, "alt"@, 0);
        lemma_ci_ne(k, "f12"@, "cmd"@, 0);
        lemma_ci_ne(k, "f12"@, "esc"@, 0);
        lemma_ci_ne(k, "f12"@, "tab"@, 0);
        lemma_ci_ne(k, "f12"@, "end"@, 0);
        lemma_ci_ne(k, "f12"@, "del"@, 0);
        lemma_ci_ne(k, "f12"@, "f10"@, 2);
        lemma_ci_ne(k, "f12"@, "f11"@, 2);
    }
    assert("<"@ + "F12"@ + ">"@ =~= "<F12>"@);
}

proof fn lemma_key_named_lt(k: Seq<char>, os: TargetOs)
    requires
        k == "<"@,
    ensures
        key_to_nvim(k, false, false, false, false, os) == Some("<lt>"@),
{
    lemma_key_literals();
    reveal_strlit("lt");
    reveal_strlit("<lt>");
    assert(k.len() == 1);
    assert(k[0] == '<');
    assert(k != "\r"@ && k != "\n"@ && k != "\x1b"@ && k != "\x08"@ && k != "\u{7f}"@ && k
        != "\t"@) by {
        assert("\r"@[0] != '<' && "\n"@[0] != '<' && "\x1b"@[0] != '<');
        assert("\x08"@[0] != '<' && "\u{7f}"@[0] != '<' && "\t"@[0] != '<');
    }
    assert(!is_modifier_key(k));
    assert(special_key_name(k) == Some("lt"@));
    assert("<"@ + "lt"@ + ">"@ =~= "<lt>"@);
}

/// A lower-case ASCII letter pressed with Ctrl, Alt or the platform key on
/// Linux or Windows is sent as `<`, then `C-` for Ctrl, `M-` for Alt, `D-`
/// for the platform key and `S-` for Shift, in that order, then the letter
/// and `>`; Ctrl+Shift and Ctrl+Alt+O are the application's own and are
/// left out here.
pub proof fn lemma_letter_with_modifiers(
    k: Seq<char>,
    ctrl: bool,
    alt: bool,
    shift: bool,
    cmd: bool,
    os: TargetOs,
)
    requires
        k.len() == 1,
        'a' <= k[0] <= 'z',
        os != TargetOs::MacOs,
        ctrl || alt || cmd,
        !(ctrl && shift),
        !(ctrl && alt && k[0] == 'o'),
    ensures
        key_to_nvim(k, ctrl, alt, shift, cmd, os) == Some(
            seq!['<'] + (if ctrl {
                seq!['C', '-']
            } else {
                Seq::empty()
            }) + (if alt {
                seq!['M', '-']
            } else {
                Seq::empty()
            }) + (if cmd {
                seq!['D', '-']
            } else {
                Seq::empty()
            }) + (if shift {
                seq!['S', '-']
            } else {
                Seq::empty()
            }) + k + seq!['>'],
        ),
{
    lemma_key_literals();
    reveal_strlit("F4");
    reveal_strlit("o");
    reveal_strlit("O");
    reveal_strlit("C-");
    reveal_strlit("M-");
    reveal_strlit("D-");
    reveal_strlit("S-");
    assert(k != "F4"@ && k != "f4"@);
    assert(k != "O"@) by {
        assert("O"@[0] == 'O');
    }
    if ctrl && alt {
        assert(k != "o"@) by {
            assert("o"@[0] == 'o');
        }
    }
    assert(k != "\r"@ && k != "\n"@ && k != "\x1b"@ && k != "\x08"@ && k != "\u{7f}"@ && k
        != "\t"@ && k != "<"@) by {
        assert("\r"@[0] != k[0] && "\n"@[0] != k[0] && "\x1b"@[0] != k[0]);
        assert("\x08"@[0] != k[0] && "\u{7f}"@[0] != k[0] && "\t"@[0] != k[0]);
        assert("<"@[0] != k[0]);
    }
    assert(!is_modifier_key(k));
    assert(special_key_name(k) is None);
    assert(modifier_prefix(ctrl, alt, cmd, shift) =~= (if ctrl {
        seq!['C', '-']
    } else {
        Seq::empty()
    }) + (if alt {
        seq!['M', '-']
    } else {
        Seq::empty()
    }) + (if cmd {
        seq!['D', '-']
    } else {
        Seq::empty()
    }) + (if shift {
        seq!['S', '-']
    } else {
        Seq::empty()
    }));
}

} // verus!
