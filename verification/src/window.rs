//! File URLs and command-line arguments that open windows.
//!
//! Paths are strings with Unix rules: a path is absolute when it starts
//! with `/`, and joining puts one `/` between the parts.
use crate::text::{chars_of, string_of};
use vstd::prelude::*;
use vstd::utf8::{
    decode_utf8, encode_scalar, encode_utf8, last_continuation_byte, leading_byte_width_1,
    leading_byte_width_2, leading_byte_width_3, leading_byte_width_4,
    second_last_continuation_byte, third_last_continuation_byte, valid_utf8,
};

verus! {

/// The characters of `bytes` read as UTF-8, each invalid sequence replaced
/// by U+FFFD, as `String::from_utf8_lossy` reads them.
pub uninterp spec fn utf8_lossy(bytes: Seq<u8>) -> Seq<char>;

/// `String::from_utf8_lossy`: the text that the bytes encode.  Its
/// documentation promises that valid UTF-8 is read as it is; how invalid
/// sequences are replaced is left to the name `utf8_lossy`.
#[verifier::external_body]
fn string_from_utf8_lossy(bytes: &[u8]) -> (res: String)
    ensures
        res@ == utf8_lossy(bytes@),
        valid_utf8(bytes@) ==> res@ == decode_utf8(bytes@),
{
    String::from_utf8_lossy(bytes).into_owned()
}

/// The value of an ASCII hexadecimal digit.
pub open spec fn hex_digit(b: u8) -> Option<u8> {
    if 0x30 <= b <= 0x39 {
        Some((b - 0x30) as u8)
    } else if 0x41 <= b <= 0x46 {
        Some((b - 0x41 + 10) as u8)
    } else if 0x61 <= b <= 0x66 {
        Some((b - 0x61 + 10) as u8)
    } else {
        None
    }
}

/// The byte that the two characters after a `%` stand for, as
/// `u8::from_str_radix(.., 16)` reads them: two hexadecimal digits, or a
/// `+` sign and one digit.
pub open spec fn hex_pair(b1: u8, b2: u8) -> Option<u8> {
    match (hex_digit(b1), hex_digit(b2)) {
        (Some(h), Some(l)) => Some((h * 16 + l) as u8),
        (None, Some(l)) => if b1 == 0x2b {
            Some(l)
        } else {
            None
        },
        _ => None,
    }
}

/// The bytes with every `%XX` escape replaced by the byte it stands for; a
/// `%` that is not followed by two more bytes, or by bytes that do not read
/// as a number, stays as it is.
pub open spec fn percent_decoded(b: Seq<u8>) -> Seq<u8>
    decreases b.len(),
{
    if b.len() == 0 {
        Seq::empty()
    } else if b[0] == 0x25 && b.len() > 2 && hex_pair(b[1], b[2]) is Some {
        seq![hex_pair(b[1], b[2])->0] + percent_decoded(b.skip(3))
    } else {
        seq![b[0]] + percent_decoded(b.skip(1))
    }
}

fn hex_value(b: u8) -> (res: Option<u8>)
    ensures
        res == hex_digit(b),
{
    if 0x30 <= b && b <= 0x39 {
        Some(b - 0x30)
    } else if 0x41 <= b && b <= 0x46 {
        Some(b - 0x41 + 10)
    } else if 0x61 <= b && b <= 0x66 {
        Some(b - 0x61 + 10)
    } else {
        None
    }
}

fn hex_pair_value(b1: u8, b2: u8) -> (res: Option<u8>)
    ensures
        res == hex_pair(b1, b2),
{
    match (hex_value(b1), hex_value(b2)) {
        (Some(h), Some(l)) => Some(h * 16 + l),
        (None, Some(l)) => if b1 == 0x2b {
            Some(l)
        } else {
            None
        },
        _ => None,
    }
}

/// Replaces `%XX` escapes in `s` by the bytes they stand for and reads the
/// result as UTF-8, invalid sequences becoming U+FFFD.
pub fn decode_percent(s: &str) -> (res: String)
    ensures
        res@ == utf8_lossy(percent_decoded(encode_utf8(s@))),
        valid_utf8(percent_decoded(encode_utf8(s@))) ==> res@ == decode_utf8(
            percent_decoded(encode_utf8(s@)),
        ),
        (forall|i: int| 0 <= i < encode_utf8(s@).len() ==> encode_utf8(s@)[i] != 0x25) ==> res@
            == s@,
{
    let bytes = s.as_bytes();
    let ghost b = bytes@;
    let mut out: Vec<u8> = Vec::new();
    let mut i: usize = 0;
    proof {
        assert(b.skip(0) =~= b);
        assert(out@ + percent_decoded(b) =~= percent_decoded(b));
    }
    while i < bytes.len()
        invariant
            b == bytes@,
            i <= b.len(),
            out@ + percent_decoded(b.skip(i as int)) == percent_decoded(b),
        decreases b.len() - i,
    {
        let ghost rest = b.skip(i as int);
        if bytes[i] == 0x25 && bytes.len() - i > 2 {
            if let Some(v) = hex_pair_value(bytes[i + 1], bytes[i + 2]) {
                proof {
                    assert(rest[1] == b[i + 1] && rest[2] == b[i + 2]);
                    assert(rest.skip(3) =~= b.skip(i + 3));
                    assert(out@.push(v) + percent_decoded(b.skip(i + 3)) =~= out@ + percent_decoded(
                        rest,
                    ));
                }
                out.push(v);
                i = i + 3;
                continue;
            }
        }
        proof {
            assert(rest[0] == b[i as int]);
            if rest.len() > 2 {
                assert(rest[1] == b[i + 1] && rest[2] == b[i + 2]);
            }
            assert(rest.skip(1) =~= b.skip(i + 1));
            assert(out@.push(b[i as int]) + percent_decoded(b.skip(i + 1)) =~= out@
                + percent_decoded(rest));
        }
        out.push(bytes[i]);
        i = i + 1;
    }
    proof {
        assert(b.skip(b.len() as int) =~= Seq::<u8>::empty());
        assert(out@ =~= percent_decoded(b));
    }
    proof {
        if forall|i: int| 0 <= i < b.len() ==> b[i] != 0x25 {
            lemma_no_escape_unchanged(b);
            vstd::utf8::encode_utf8_valid_utf8(s@);
            vstd::utf8::encode_utf8_decode_utf8(s@);
        }
    }
    string_from_utf8_lossy(out.as_slice())
}

/// Bytes without a `%` have nothing to decode.
proof fn lemma_no_escape_unchanged(b: Seq<u8>)
    requires
        forall|i: int| 0 <= i < b.len() ==> b[i] != 0x25,
    ensures
        percent_decoded(b) == b,
    decreases b.len(),
{
    if b.len() > 0 {
        assert forall|i: int| 0 <= i < b.skip(1).len() implies b.skip(1)[i] != 0x25 by {
            assert(b.skip(1)[i] == b[i + 1]);
        }
        lemma_no_escape_unchanged(b.skip(1));
        assert(seq![b[0]] + b.skip(1) =~= b);
    }
}

/// The UTF-8 encoding of a character other than `%` holds no `%` byte: an
/// ASCII character is its own byte, and every byte of a longer encoding has
/// its high bit set.
proof fn lemma_scalar_no_percent(c: char)
    requires
        c != '%',
    ensures
        forall|j: int|
            0 <= j < encode_scalar(c as u32).len() ==> #[trigger] encode_scalar(c as u32)[j]
                != 0x25,
{
    let v = c as u32;
    vstd::utf8::char_u32_cast(c, v);
    vstd::utf8::char_u32_cast('%', 0x25);
    assert(v != 0x25);
    assert(v <= 0x7f && v != 0x25 ==> leading_byte_width_1(v) != 0x25) by (bit_vector);
    assert(leading_byte_width_2(v) >= 0x80) by (bit_vector);
    assert(leading_byte_width_3(v) >= 0x80) by (bit_vector);
    assert(leading_byte_width_4(v) >= 0x80) by (bit_vector);
    assert(last_continuation_byte(v) >= 0x80) by (bit_vector);
    assert(second_last_continuation_byte(v) >= 0x80) by (bit_vector);
    assert(third_last_continuation_byte(v) >= 0x80) by (bit_vector);
}

/// Text without a `%` character encodes to bytes without a `%` byte.
proof fn lemma_chars_no_percent(s: Seq<char>)
    requires
        forall|i: int| 0 <= i < s.len() ==> s[i] != '%',
    ensures
        forall|i: int| 0 <= i < encode_utf8(s).len() ==> #[trigger] encode_utf8(s)[i] != 0x25,
    decreases s.len(),
{
    if s.len() > 0 {
        lemma_scalar_no_percent(s[0]);
        assert forall|i: int| 0 <= i < s.drop_first().len() implies s.drop_first()[i] != '%' by {
            assert(s.drop_first()[i] == s[i + 1]);
        }
        lemma_chars_no_percent(s.drop_first());
        let head = encode_scalar(s[0] as u32);
        let tail = encode_utf8(s.drop_first());
        assert forall|i: int| 0 <= i < encode_utf8(s).len() implies #[trigger] encode_utf8(s)[i]
            != 0x25 by {
            if i < head.len() {
                assert(encode_utf8(s)[i] == head[i]);
            } else {
                assert(encode_utf8(s)[i] == tail[i - head.len()]);
            }
        }
    }
}

/// Whether `s` starts with `prefix`.
pub open spec fn starts_with(s: Seq<char>, prefix: Seq<char>) -> bool {
    s.len() >= prefix.len() && s.subrange(0, prefix.len() as int) == prefix
}

/// The text after the `file://` scheme of a URL, or the whole text when it
/// has no such scheme.
pub open spec fn url_path_part(url: Seq<char>) -> Seq<char> {
    if starts_with(url, "file://"@) {
        url.skip(7)
    } else {
        url
    }
}

/// The path that a dropped or opened URL names: the part after `file://`
/// with its `%XX` escapes decoded; `None` when that is empty.
pub open spec fn url_path(url: Seq<char>) -> Option<Seq<char>> {
    let decoded = utf8_lossy(percent_decoded(encode_utf8(url_path_part(url))));
    if decoded.len() == 0 {
        None
    } else {
        Some(decoded)
    }
}

/// Whether the characters `s` start with the string `prefix`.
pub(crate) fn chars_start_with(s: &Vec<char>, prefix: &str) -> (res: bool)
    ensures
        res == starts_with(s@, prefix@),
{
    let p = chars_of(prefix);
    if p.len() > s.len() {
        return false;
    }
    let mut i: usize = 0;
    while i < p.len()
        invariant
            p@ == prefix@,
            p@.len() <= s@.len(),
            i <= p@.len(),
            forall|j: int| 0 <= j < i ==> s@[j] == p@[j],
        decreases p@.len() - i,
    {
        if s[i] != p[i] {
            proof {
                assert(s@.subrange(0, p@.len() as int)[i as int] == s@[i as int]);
            }
            return false;
        }
        i = i + 1;
    }
    assert(s@.subrange(0, p@.len() as int) =~= p@);
    true
}

/// The characters of `s` from index `from` on.
fn suffix_from(s: &Vec<char>, from: usize) -> (res: Vec<char>)
    requires
        from <= s@.len(),
    ensures
        res@ == s@.skip(from as int),
{
    let mut out: Vec<char> = Vec::new();
    let mut i = from;
    while i < s.len()
        invariant
            from <= i <= s@.len(),
            out@ == s@.subrange(from as int, i as int),
        decreases s@.len() - i,
    {
        out.push(s[i]);
        i = i + 1;
        assert(out@ =~= s@.subrange(from as int, i as int));
    }
    assert(out@ =~= s@.skip(from as int));
    out
}

/// The path that a URL names (see `url_path`).  Where the decoded bytes
/// are valid UTF-8, the path is exactly the text they encode.
pub fn url_to_path(url_str: &str) -> (res: Option<String>)
    ensures
        match res {
            Some(p) => url_path(url_str@) == Some(p@),
            None => url_path(url_str@) is None,
        },
        ({
            let bytes = percent_decoded(encode_utf8(url_path_part(url_str@)));
            valid_utf8(bytes) ==> match res {
                Some(p) => p@ == decode_utf8(bytes) && p@.len() > 0,
                None => decode_utf8(bytes).len() == 0,
            }
        }),
        (forall|i: int|
            0 <= i < url_path_part(url_str@).len() ==> url_path_part(url_str@)[i] != '%') ==> match res {
            Some(p) => p@ == url_path_part(url_str@),
            None => url_path_part(url_str@).len() == 0,
        },
{
    let cs = chars_of(url_str);
    let rest = if chars_start_with(&cs, "file://") {
        proof {
            reveal_strlit("file://");
        }
        suffix_from(&cs, 7)
    } else {
        cs
    };
    let rest_str = string_of(&rest);
    proof {
        if forall|i: int| 0 <= i < rest_str@.len() ==> rest_str@[i] != '%' {
            lemma_chars_no_percent(rest_str@);
        }
    }
    let decoded = decode_percent(rest_str.as_str());
    if decoded.as_str().unicode_len() == 0 {
        None
    } else {
        Some(decoded)
    }
}

/// `base` joined with `p`: `p` itself when it is absolute, else `p` after
/// `base` and one `/` between them (none when `base` is empty or already
/// ends with `/`).
pub open spec fn path_join(base: Seq<char>, p: Seq<char>) -> Seq<char> {
    if p.len() > 0 && p[0] == '/' {
        p
    } else if base.len() > 0 && base.last() != '/' {
        base + seq!['/'] + p
    } else {
        base + p
    }
}

/// Joins a path onto a directory (see `path_join`).
pub fn join_path(base: &str, p: &str) -> (res: String)
    ensures
        res@ == path_join(base@, p@),
{
    let b = chars_of(base);
    let q = chars_of(p);
    if q.len() > 0 && q[0] == '/' {
        return String::from_str(p);
    }
    let mut out = String::from_str(base);
    if b.len() > 0 && b[b.len() - 1] != '/' {
        crate::text::push_char(&mut out, '/');
    }
    out.append(p);
    out
}

/// What the command line asks for: the directory to work in, the files and
/// directories to open, and whether to draw the window without the
/// system's border and title bar.
#[derive(Debug, Default, PartialEq, Eq)]
pub struct CliLaunchConfig {
    pub cwd: Option<String>,
    pub targets: Vec<String>,
    pub borderless: bool,
}

/// The abstract content of a launch configuration.
pub struct CliLaunchView {
    pub cwd: Option<Seq<char>>,
    pub targets: Seq<Seq<char>>,
    pub borderless: bool,
}

impl View for CliLaunchConfig {
    type V = CliLaunchView;

    open spec fn view(&self) -> CliLaunchView {
        CliLaunchView {
            cwd: opt_string_view(self.cwd),
            targets: self.targets@.map_values(|t: String| t@),
            borderless: self.borderless,
        }
    }
}

/// The abstract content of an optional string.
pub open spec fn opt_string_view(o: Option<String>) -> Option<Seq<char>> {
    match o {
        Some(c) => Some(c@),
        None => None,
    }
}

/// An argument that is not a path: empty, or a macOS process serial number.
pub open spec fn is_ignored_arg(a: Seq<char>) -> bool {
    a.len() == 0 || starts_with(a, "-psn_"@)
}

/// An argument that asks for a window without the system decorations.
pub open spec fn is_borderless_flag(a: Seq<char>) -> bool {
    a == "--no-titlebar"@ || a == "-B"@
}

/// The targets that the arguments name, each relative one joined onto the
/// current directory when there is one.
pub open spec fn cli_targets(args: Seq<Seq<char>>, current_dir: Option<Seq<char>>) -> Seq<Seq<char>>
    decreases args.len(),
{
    if args.len() == 0 {
        Seq::empty()
    } else {
        let prev = cli_targets(args.drop_last(), current_dir);
        let a = args.last();
        if is_ignored_arg(a) || is_borderless_flag(a) {
            prev
        } else {
            prev.push(
                match current_dir {
                    Some(c) => path_join(c, a),
                    None => a,
                },
            )
        }
    }
}

/// Whether an argument asks for a borderless window.
pub open spec fn cli_borderless(args: Seq<Seq<char>>) -> bool {
    exists|i: int|
        0 <= i < args.len() && !is_ignored_arg(#[trigger] args[i]) && is_borderless_flag(args[i])
}

/// Reads the command-line arguments (the program name left out).  The
/// working directory is `current_dir`; when there is none it is left unset
/// here, and the caller picks one from the filesystem (the first target if
/// it is a directory, else its parent, else the application's state
/// directory).
pub fn parse_cli_args(args: &Vec<String>, current_dir: Option<String>) -> (res: CliLaunchConfig)
    ensures
        res@.cwd == opt_string_view(current_dir),
        res@.targets == cli_targets(args@.map_values(|a: String| a@), opt_string_view(current_dir)),
        res@.borderless == cli_borderless(args@.map_values(|a: String| a@)),
{
    let ghost av = args@.map_values(|a: String| a@);
    let ghost cd = opt_string_view(current_dir);
    let mut targets: Vec<String> = Vec::new();
    let mut borderless = false;
    let mut i: usize = 0;
    while i < args.len()
        invariant
            i <= args@.len(),
            av == args@.map_values(|a: String| a@),
            cd == opt_string_view(current_dir),
            targets@.map_values(|t: String| t@) == cli_targets(av.take(i as int), cd),
            borderless == cli_borderless(av.take(i as int)),
        decreases args@.len() - i,
    {
        proof {
            assert(av.take(i + 1).drop_last() =~= av.take(i as int));
            assert(av.take(i + 1).last() == args@[i as int]@);
        }
        let a = chars_of(args[i].as_str());
        let ignored = a.len() == 0 || chars_start_with(&a, "-psn_");
        let flag = crate::text::chars_eq(&a, "--no-titlebar") || crate::text::chars_eq(&a, "-B");
        if ignored {
            proof {
                assert forall|j: int|
                    0 <= j < i + 1 && !is_ignored_arg(#[trigger] av.take(i + 1)[j]) implies
                    j < i && av.take(i as int)[j] == av.take(i + 1)[j] by {}
                assert(cli_borderless(av.take(i + 1)) == cli_borderless(av.take(i as int)));
            }
        } else if flag {
            borderless = true;
            proof {
                assert(av.take(i + 1)[i as int] == av[i as int]);
                assert(cli_borderless(av.take(i + 1)));
            }
        } else {
            let ghost before = targets@.map_values(|t: String| t@);
            let t = match &current_dir {
                Some(c) => join_path(c.as_str(), args[i].as_str()),
                None => args[i].clone(),
            };
            targets.push(t);
            proof {
                assert(targets@.map_values(|t: String| t@) =~= before.push(t@));
                assert forall|j: int|
                    0 <= j < i + 1 && !is_ignored_arg(#[trigger] av.take(i + 1)[j])
                        && is_borderless_flag(av.take(i + 1)[j]) implies j < i && av.take(
                    i as int,
                )[j] == av.take(i + 1)[j] by {}
                assert(cli_borderless(av.take(i + 1)) == cli_borderless(av.take(i as int)));
            }
        }
        i = i + 1;
    }
    proof {
        assert(av.take(args@.len() as int) =~= av);
    }
    CliLaunchConfig { cwd: current_dir, targets, borderless }
}

/// The directory to work in when none was current: the first target when
/// it is a directory, else its parent when that exists and is not empty,
/// else the application's safe default directory.
pub fn fallback_cwd(
    first_target: Option<&str>,
    first_is_dir: bool,
    parent: Option<&str>,
    parent_exists: bool,
    safe_default: Option<String>,
) -> (res: Option<String>)
    ensures
        ({
            let chosen = match first_target {
                Some(f) => crate::commands::open_dir_for(
                    f@,
                    first_is_dir,
                    match parent {
                        Some(p) => Some(p@),
                        None => None,
                    },
                    parent_exists,
                ),
                None => None,
            };
            match chosen {
                Some(d) => res matches Some(r) && r@ == d,
                None => res == safe_default,
            }
        }),
{
    match first_target {
        Some(f) => match crate::commands::open_dir(f, first_is_dir, parent, parent_exists) {
            Some(d) => Some(d),
            None => safe_default,
        },
        None => safe_default,
    }
}

/// Whether the process's current directory can serve as the working
/// directory: not the filesystem root, and not inside an application
/// bundle (where a launch from the Finder leaves it).
pub fn is_usable_current_dir(dir: &str) -> (res: bool)
    ensures
        res == (dir@ != "/"@ && !crate::text::has_infix(dir@, ".app/Contents"@)),
{
    let cs = chars_of(dir);
    !crate::text::str_eq(dir, "/") && !crate::text::contains_chars(&cs, ".app/Contents")
}

/// The shortest time between two resize requests to Neovim, in milliseconds.
pub const RESIZE_INTERVAL_MS: u64 = 25;

/// What to do when the window's grid size may have changed.
#[derive(Debug, Clone, Copy, PartialEq, Eq, Structural)]
pub enum ResizeStep {
    /// The size is the one Neovim has.
    Unchanged,
    /// Ask Neovim for the new size now.
    SendNow,
    /// Ask for it after `wait_ms` more milliseconds (the latest size then).
    SendLater { wait_ms: u64 },
}

/// The resize step for a grid of `cols` x `rows` when the last size was
/// `last_cols` x `last_rows` and the last request went out `elapsed_ms` ago:
/// a changed size is sent at once if at least `RESIZE_INTERVAL_MS` have
/// passed, else when they will have.
pub fn resize_step(cols: usize, rows: usize, last_cols: usize, last_rows: usize, elapsed_ms: u64) -> (res:
    ResizeStep)
    ensures
        res == (if cols == last_cols && rows == last_rows {
            ResizeStep::Unchanged
        } else if elapsed_ms >= RESIZE_INTERVAL_MS {
            ResizeStep::SendNow
        } else {
            ResizeStep::SendLater { wait_ms: (RESIZE_INTERVAL_MS - elapsed_ms) as u64 }
        }),
{
    if cols == last_cols && rows == last_rows {
        ResizeStep::Unchanged
    } else if elapsed_ms >= RESIZE_INTERVAL_MS {
        ResizeStep::SendNow
    } else {
        ResizeStep::SendLater { wait_ms: RESIZE_INTERVAL_MS - elapsed_ms }
    }
}

/// How long frames keep being drawn after the last interaction or redraw,
/// in milliseconds.
pub const ACTIVE_FRAMES_MS: u64 = 300;

/// Whether the frame pump keeps drawing: an interaction happened less than
/// `ACTIVE_FRAMES_MS` ago (`None`: none since the pump last stopped).
pub fn keeps_drawing(since_interaction_ms: Option<u64>) -> (res: bool)
    ensures
        res == (match since_interaction_ms {
            Some(t) => t < ACTIVE_FRAMES_MS,
            None => false,
        }),
{
    match since_interaction_ms {
        Some(t) => t < ACTIVE_FRAMES_MS,
        None => false,
    }
}

} // verus!
