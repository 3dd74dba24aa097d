//! The window title shown in the title bar.
use crate::text::{chars_of, eq_ignore_ascii_case, eq_ignore_case, string_of, trim_chars, trimmed};
use vstd::prelude::*;

verus! {

/// Whether `s` ends with `suffix`.
pub open spec fn ends_with(s: Seq<char>, suffix: Seq<char>) -> bool {
    s.len() >= suffix.len() && s.subrange(s.len() - suffix.len(), s.len() as int) == suffix
}

/// `s` without the trailing `suffix` (which it ends with).
pub open spec fn without_suffix(s: Seq<char>, suffix: Seq<char>) -> Seq<char> {
    s.subrange(0, s.len() - suffix.len())
}

/// The title to show for Neovim's title `raw`: "Zenvi" when Neovim's title
/// is blank or just "nvim" (any ASCII case); the title with its
/// " - NVIM" / " - Nvim" / " - nvim" ending replaced by " - Zenvi"; else
/// the title itself, trimmed.
pub open spec fn title_for(raw: Seq<char>) -> Seq<char> {
    let t = trimmed(raw);
    if t.len() == 0 || eq_ignore_ascii_case(t, "nvim"@) {
        "Zenvi"@
    } else if ends_with(t, " - NVIM"@) {
        without_suffix(t, " - NVIM"@) + " - Zenvi"@
    } else if ends_with(t, " - Nvim"@) {
        without_suffix(t, " - Nvim"@) + " - Zenvi"@
    } else if ends_with(t, " - nvim"@) {
        without_suffix(t, " - nvim"@) + " - Zenvi"@
    } else {
        t
    }
}

/// Whether the characters `s` end with the string `suffix`.
fn chars_end_with(s: &Vec<char>, suffix: &str) -> (res: bool)
    ensures
        res == ends_with(s@, suffix@),
{
    let suf = chars_of(suffix);
    if suf.len() > s.len() {
        return false;
    }
    let off = s.len() - suf.len();
    let mut i: usize = 0;
    while i < suf.len()
        invariant
            suf@ == suffix@,
            off + suf@.len() == s@.len(),
            s@.len() <= usize::MAX,
            i <= suf@.len(),
            forall|j: int| 0 <= j < i ==> s@[off + j] == suf@[j],
        decreases suf@.len() - i,
    {
        if s[off + i] != suf[i] {
            proof {
                assert(s@.subrange(off as int, s@.len() as int)[i as int] == s@[off + i]);
            }
            return false;
        }
        i = i + 1;
    }
    assert(s@.subrange(off as int, s@.len() as int) =~= suf@);
    true
}

/// The first `n` characters of `s`.
fn prefix_chars(s: &Vec<char>, n: usize) -> (res: Vec<char>)
    requires
        n <= s@.len(),
    ensures
        res@ == s@.subrange(0, n as int),
{
    let mut out: Vec<char> = Vec::new();
    let mut i: usize = 0;
    while i < n
        invariant
            n <= s@.len(),
            i <= n,
            out@ == s@.subrange(0, i as int),
        decreases n - i,
    {
        out.push(s[i]);
        i = i + 1;
        assert(out@ =~= s@.subrange(0, i as int));
    }
    out
}

/// Formats Neovim's title for the title bar, keeping the file path and
/// naming the application "Zenvi" (see `title_for`).
pub fn format_title(raw_title: &str) -> (res: String)
    ensures
        res@ == title_for(raw_title@),
{
    let cs = chars_of(raw_title);
    let t = trim_chars(&cs);
    if t.len() == 0 || eq_ignore_case(&t, "nvim") {
        return String::from_str("Zenvi");
    }
    let suffix: &str = if chars_end_with(&t, " - NVIM") {
        " - NVIM"
    } else if chars_end_with(&t, " - Nvim") {
        " - Nvim"
    } else if chars_end_with(&t, " - nvim") {
        " - nvim"
    } else {
        return string_of(&t);
    };
    let n = suffix.unicode_len();
    let head = prefix_chars(&t, t.len() - n);
    let mut out = string_of(&head);
    out.append(" - Zenvi");
    out
}

/// The title bar and menu colours derived from Neovim's theme, as
/// `0xRRGGBB` values.
#[derive(Debug, Clone, Copy, PartialEq, Eq, Structural)]
pub struct TitlebarStyle {
    pub title_color: u32,
    pub border_color: u32,
    pub menu_hover_bg: u32,
    pub menu_active_bg: u32,
    pub dropdown_bg: u32,
}

/// The red, green or blue channel of a `0xRRGGBB` colour (`shift` 16, 8
/// or 0).
pub open spec fn channel(c: u32, shift: int) -> int {
    if shift == 16 {
        (c / 0x10000) as int % 256
    } else if shift == 8 {
        (c / 0x100) as int % 256
    } else {
        c as int % 256
    }
}

/// A channel moved `d` steps towards white (on a dark background) or black
/// (on a light one), stopping at the end of the range.
pub open spec fn shade_channel(ch: int, is_dark: bool, lighter: int, darker: int) -> int {
    if is_dark {
        if ch + lighter <= 255 {
            ch + lighter
        } else {
            255
        }
    } else {
        if ch - darker >= 0 {
            ch - darker
        } else {
            0
        }
    }
}

/// The background shaded channel by channel (see `shade_channel`).
pub open spec fn shaded(bg: u32, is_dark: bool, lighter: int, darker: int) -> u32 {
    (shade_channel(channel(bg, 16), is_dark, lighter, darker) * 0x10000 + shade_channel(
        channel(bg, 8),
        is_dark,
        lighter,
        darker,
    ) * 0x100 + shade_channel(channel(bg, 0), is_dark, lighter, darker)) as u32
}

/// One channel of `c` shaded (see `shade_channel`).
fn shade(ch: u32, is_dark: bool, lighter: u32, darker: u32) -> (res: u32)
    requires
        ch <= 255,
        lighter <= 255,
        darker <= 255,
    ensures
        res == shade_channel(ch as int, is_dark, lighter as int, darker as int),
        res <= 255,
{
    if is_dark {
        if ch + lighter <= 255 {
            ch + lighter
        } else {
            255
        }
    } else {
        if ch >= darker {
            ch - darker
        } else {
            0
        }
    }
}

/// The background shaded by `lighter` steps when it is dark, else by
/// `darker` steps (see `shaded`).
fn shade_color(bg: u32, is_dark: bool, lighter: u32, darker: u32) -> (res: u32)
    requires
        lighter <= 255,
        darker <= 255,
    ensures
        res == shaded(bg, is_dark, lighter as int, darker as int),
{
    let r = shade((bg / 0x10000) % 256, is_dark, lighter, darker);
    let g = shade((bg / 0x100) % 256, is_dark, lighter, darker);
    let b = shade(bg % 256, is_dark, lighter, darker);
    r * 0x10000 + g * 0x100 + b
}

/// The title bar colours for Neovim's default background and foreground:
/// the title in the foreground colour; the border, the menu's hover and
/// active backgrounds and the dropdown background the background made
/// 18, 20, 35 and 14 steps lighter per channel when the background is dark,
/// or 25, 20, 35 and 12 steps darker when it is light.  Whether it is dark
/// (its luminance below half) is the caller's to say.
pub fn derive_titlebar_style(default_bg: u32, default_fg: u32, is_dark: bool) -> (res:
    TitlebarStyle)
    ensures
        res == (TitlebarStyle {
            title_color: default_fg,
            border_color: shaded(default_bg, is_dark, 18, 25),
            menu_hover_bg: shaded(default_bg, is_dark, 20, 20),
            menu_active_bg: shaded(default_bg, is_dark, 35, 35),
            dropdown_bg: shaded(default_bg, is_dark, 14, 12),
        }),
{
    TitlebarStyle {
        title_color: default_fg,
        border_color: shade_color(default_bg, is_dark, 18, 25),
        menu_hover_bg: shade_color(default_bg, is_dark, 20, 20),
        menu_active_bg: shade_color(default_bg, is_dark, 35, 35),
        dropdown_bg: shade_color(default_bg, is_dark, 14, 12),
    }
}

} // verus!
