//! Reading Neovim's `guifont` option: `Family Name:h15:b,Fallback:h14`.
//!
//! The family name is read here.  The size attribute (`h15.5`) is a
//! floating-point number; its text is handed out and the caller parses it.
use crate::platform::TargetOs;
use crate::text::{
    char_is_space, chars_of, contains_chars, has_infix, leading_spaces, lemma_trimmed_ends,
    lemma_trimmed_fixed, lemma_trimmed_within, string_of, trim_chars, trimmed,
};
use vstd::prelude::*;

verus! {

/// The monospace family used when no other is known.
pub fn default_font_family(os: TargetOs) -> (res: &'static str)
    ensures
        res@ == (match os {
            TargetOs::MacOs => "Menlo"@,
            TargetOs::Windows => "Consolas"@,
            TargetOs::Linux => "DejaVu Sans Mono"@,
        }),
{
    match os {
        TargetOs::MacOs => "Menlo",
        TargetOs::Windows => "Consolas",
        TargetOs::Linux => "DejaVu Sans Mono",
    }
}

/// `s` split at every `sep` (`str::split` with a character): always at
/// least one part, and one more than there are separators.
pub open spec fn split_at_char(s: Seq<char>, sep: char) -> Seq<Seq<char>>
    decreases s.len(),
{
    if s.len() == 0 {
        seq![Seq::empty()]
    } else {
        let prev = split_at_char(s.drop_last(), sep);
        if s.last() == sep {
            prev.push(Seq::empty())
        } else {
            prev.update(prev.len() - 1, prev.last().push(s.last()))
        }
    }
}

proof fn lemma_split_nonempty(s: Seq<char>, sep: char)
    ensures
        split_at_char(s, sep).len() >= 1,
    decreases s.len(),
{
    if s.len() > 0 {
        lemma_split_nonempty(s.drop_last(), sep);
    }
}

/// The family name as `guifont` writes it: backslashes dropped and
/// underscores read as spaces.
pub open spec fn unescape_family(s: Seq<char>) -> Seq<char>
    decreases s.len(),
{
    if s.len() == 0 {
        Seq::empty()
    } else {
        let prev = unescape_family(s.drop_last());
        if s.last() == '\\' {
            prev
        } else if s.last() == '_' {
            prev.push(' ')
        } else {
            prev.push(s.last())
        }
    }
}

/// The family of one `guifont` entry: its first `:`-part, trimmed,
/// unescaped and trimmed again, when that is not empty.
pub open spec fn entry_family(entry: Seq<char>) -> Option<Seq<char>> {
    let name = trimmed(split_at_char(entry, ':')[0]);
    let cleaned = trimmed(unescape_family(name));
    if name.len() > 0 && cleaned.len() > 0 {
        Some(cleaned)
    } else {
        None
    }
}

/// No part of a split holds the separator.
proof fn lemma_split_parts_lack_sep(s: Seq<char>, sep: char)
    ensures
        forall|k: int, i: int|
            0 <= k < split_at_char(s, sep).len() && 0 <= i < split_at_char(s, sep)[k].len()
                ==> #[trigger] split_at_char(s, sep)[k][i] != sep,
    decreases s.len(),
{
    lemma_split_nonempty(s, sep);
    if s.len() > 0 {
        lemma_split_parts_lack_sep(s.drop_last(), sep);
        lemma_split_nonempty(s.drop_last(), sep);
        let prev = split_at_char(s.drop_last(), sep);
        assert forall|k: int, i: int|
            0 <= k < split_at_char(s, sep).len() && 0 <= i < split_at_char(s, sep)[k].len()
                implies #[trigger] split_at_char(s, sep)[k][i] != sep by {
            if s.last() != sep && k == prev.len() - 1 && i == prev.last().len() {
            } else {
                assert(split_at_char(s, sep)[k][i] == prev[k][i]);
            }
        }
    }
}

/// Unescaping leaves no backslash or underscore, and brings in no
/// character that is not a space or already there.
proof fn lemma_unescape_clean(s: Seq<char>, c: char)
    requires
        c != ' ',
        forall|i: int| 0 <= i < s.len() ==> s[i] != c,
    ensures
        forall|i: int|
            0 <= i < unescape_family(s).len() ==> #[trigger] unescape_family(s)[i] != '\\'
                && unescape_family(s)[i] != '_' && unescape_family(s)[i] != c,
    decreases s.len(),
{
    if s.len() > 0 {
        lemma_unescape_clean(s.drop_last(), c);
        let prev = unescape_family(s.drop_last());
        assert forall|i: int| 0 <= i < unescape_family(s).len() implies #[trigger] unescape_family(
            s,
        )[i] != '\\' && unescape_family(s)[i] != '_' && unescape_family(s)[i] != c by {
            if i < prev.len() {
                assert(unescape_family(s)[i] == prev[i]);
            }
        }
    }
}

/// The family that a `guifont` entry names is never empty, is its own
/// trimmed form, and holds no `:`, backslash or underscore.
pub proof fn lemma_entry_family_clean(entry: Seq<char>)
    ensures
        entry_family(entry) matches Some(f) ==> f.len() > 0 && trimmed(f) == f && forall|i: int|
            0 <= i < f.len() ==> #[trigger] f[i] != ':' && f[i] != '\\' && f[i] != '_',
{
    lemma_split_nonempty(entry, ':');
    lemma_split_parts_lack_sep(entry, ':');
    let part = split_at_char(entry, ':')[0];
    let name = trimmed(part);
    lemma_trimmed_within(part);
    assert forall|i: int| 0 <= i < name.len() implies name[i] != ':' by {
        assert(name[i] == part[i + leading_spaces(part)]);
    }
    lemma_unescape_clean(name, ':');
    let un = unescape_family(name);
    let cleaned = trimmed(un);
    lemma_trimmed_within(un);
    assert forall|i: int| 0 <= i < cleaned.len() implies #[trigger] cleaned[i] != ':'
        && cleaned[i] != '\\' && cleaned[i] != '_' by {
        assert(cleaned[i] == un[i + leading_spaces(un)]);
    }
    lemma_trimmed_ends(un);
    lemma_trimmed_fixed(cleaned);
}

/// The size texts of the attribute parts: for each part after the first
/// that, trimmed, starts with `h` or `H`, the text after that letter.
pub open spec fn size_texts(parts: Seq<Seq<char>>) -> Seq<Seq<char>>
    decreases parts.len(),
{
    if parts.len() == 0 {
        Seq::empty()
    } else {
        let prev = size_texts(parts.drop_last());
        let p = trimmed(parts.last());
        if p.len() > 0 && (p[0] == 'h' || p[0] == 'H') {
            prev.push(p.drop_first())
        } else {
            prev
        }
    }
}

/// What one `guifont` entry says.
pub struct GuiFontView {
    pub family: Option<Seq<char>>,
    pub size_texts: Seq<Seq<char>>,
}

/// The family and the candidate size texts of one `guifont` entry
/// (`Family:h15:b`).
pub open spec fn parse_entry(entry: Seq<char>) -> GuiFontView {
    GuiFontView {
        family: entry_family(entry),
        size_texts: size_texts(split_at_char(entry, ':').skip(1)),
    }
}

/// What a `guifont` value says: nothing when it is blank, else what its
/// first comma-separated entry says.
pub open spec fn parse_guifont_spec(guifont: Seq<char>) -> GuiFontView {
    let t = trimmed(guifont);
    if t.len() == 0 {
        GuiFontView { family: None, size_texts: Seq::empty() }
    } else {
        parse_entry(trimmed(split_at_char(t, ',')[0]))
    }
}

/// A parsed `guifont` entry.  The size is the last of `size_texts` that
/// reads as a number greater than 4 and less than 120.
#[derive(Debug, PartialEq)]
pub struct ParsedGuiFont {
    pub family: Option<String>,
    pub size_texts: Vec<String>,
}

/// The abstract content of a sequence of strings.
pub open spec fn strings_view(v: Seq<String>) -> Seq<Seq<char>> {
    v.map_values(|s: String| s@)
}

impl View for ParsedGuiFont {
    type V = GuiFontView;

    open spec fn view(&self) -> GuiFontView {
        GuiFontView {
            family: match self.family {
                Some(f) => Some(f@),
                None => None,
            },
            size_texts: strings_view(self.size_texts@),
        }
    }
}

/// The parts of `s` between the separators `sep`.
pub fn split_chars(s: &Vec<char>, sep: char) -> (res: Vec<Vec<char>>)
    ensures
        res@.map_values(|p: Vec<char>| p@) == split_at_char(s@, sep),
{
    let mut parts: Vec<Vec<char>> = Vec::new();
    let mut cur: Vec<char> = Vec::new();
    let mut i: usize = 0;
    while i < s.len()
        invariant
            i <= s@.len(),
            parts@.map_values(|p: Vec<char>| p@).push(cur@) == split_at_char(s@.take(i as int), sep),
        decreases s@.len() - i,
    {
        let ghost before = parts@.map_values(|p: Vec<char>| p@).push(cur@);
        proof {
            assert(s@.take(i + 1).drop_last() =~= s@.take(i as int));
            lemma_split_nonempty(s@.take(i as int), sep);
        }
        if s[i] == sep {
            let done = cur;
            parts.push(done);
            cur = Vec::new();
            proof {
                assert(parts@.map_values(|p: Vec<char>| p@).push(cur@) =~= before.push(
                    Seq::empty(),
                ));
            }
        } else {
            cur.push(s[i]);
            proof {
                assert(parts@.map_values(|p: Vec<char>| p@).push(cur@) =~= before.update(
                    before.len() - 1,
                    before.last().push(s@[i as int]),
                ));
            }
        }
        i = i + 1;
    }
    proof {
        assert(s@.take(s@.len() as int) =~= s@);
    }
    let ghost before = parts@.map_values(|p: Vec<char>| p@);
    parts.push(cur);
    proof {
        assert(parts@.map_values(|p: Vec<char>| p@) =~= before.push(cur@));
    }
    parts
}

/// `s` with backslashes dropped and underscores turned into spaces.
fn unescape_chars(s: &Vec<char>) -> (res: Vec<char>)
    ensures
        res@ == unescape_family(s@),
{
    let mut out: Vec<char> = Vec::new();
    let mut i: usize = 0;
    while i < s.len()
        invariant
            i <= s@.len(),
            out@ == unescape_family(s@.take(i as int)),
        decreases s@.len() - i,
    {
        proof {
            assert(s@.take(i + 1).drop_last() =~= s@.take(i as int));
        }
        let c = s[i];
        if c == '\\' {
        } else if c == '_' {
            out.push(' ');
        } else {
            out.push(c);
        }
        i = i + 1;
    }
    proof {
        assert(s@.take(s@.len() as int) =~= s@);
    }
    out
}

/// Reads one `guifont` entry such as `JetBrainsMono_Nerd_Font:h15:b`.
pub fn parse_single_guifont(spec: &str) -> (res: ParsedGuiFont)
    ensures
        res@ == parse_entry(spec@),
{
    let cs = chars_of(spec);
    parse_entry_chars(&cs)
}

fn parse_entry_chars(cs: &Vec<char>) -> (res: ParsedGuiFont)
    ensures
        res@ == parse_entry(cs@),
{
    let parts = split_chars(cs, ':');
    let ghost pv = parts@.map_values(|p: Vec<char>| p@);
    proof {
        lemma_split_nonempty(cs@, ':');
    }
    let name = trim_chars(&parts[0]);
    let mut family: Option<String> = None;
    if name.len() > 0 {
        let unescaped = unescape_chars(&name);
        let cleaned = trim_chars(&unescaped);
        if cleaned.len() > 0 {
            family = Some(string_of(&cleaned));
        }
    }
    let mut sizes: Vec<String> = Vec::new();
    let mut i: usize = 1;
    while i < parts.len()
        invariant
            1 <= i <= parts@.len(),
            pv == parts@.map_values(|p: Vec<char>| p@),
            strings_view(sizes@) == size_texts(pv.skip(1).take(i - 1)),
        decreases parts@.len() - i,
    {
        proof {
            assert(pv.skip(1).take(i as int).drop_last() =~= pv.skip(1).take(i - 1));
            assert(pv.skip(1).take(i as int).last() == parts@[i as int]@);
        }
        let p = trim_chars(&parts[i]);
        if p.len() > 0 && (p[0] == 'h' || p[0] == 'H') {
            let mut rest: Vec<char> = Vec::new();
            let mut j: usize = 1;
            while j < p.len()
                invariant
                    1 <= j <= p@.len(),
                    rest@ == p@.subrange(1, j as int),
                decreases p@.len() - j,
            {
                rest.push(p[j]);
                j = j + 1;
                assert(rest@ =~= p@.subrange(1, j as int));
            }
            let ghost before = strings_view(sizes@);
            sizes.push(string_of(&rest));
            proof {
                assert(rest@ =~= p@.drop_first());
                assert(strings_view(sizes@) =~= before.push(p@.drop_first()));
            }
        }
        i = i + 1;
    }
    proof {
        assert(pv.skip(1).take(parts@.len() - 1) =~= pv.skip(1));
    }
    ParsedGuiFont { family, size_texts: sizes }
}

/// Reads Neovim's `guifont` value: nothing when it is blank, else its first
/// comma-separated entry.
pub fn parse_guifont(guifont: &str) -> (res: ParsedGuiFont)
    ensures
        res@ == parse_guifont_spec(guifont@),
{
    let cs = chars_of(guifont);
    let t = trim_chars(&cs);
    if t.len() == 0 {
        let res = ParsedGuiFont { family: None, size_texts: Vec::new() };
        assert(res@.size_texts =~= Seq::empty());
        return res;
    }
    let entries = split_chars(&t, ',');
    proof {
        lemma_split_nonempty(t@, ',');
    }
    let primary = trim_chars(&entries[0]);
    parse_entry_chars(&primary)
}

/// Whether the family names the generic monospace family, in any ASCII case.
pub fn is_generic_monospace(name: &str) -> (res: bool)
    ensures
        res == crate::text::eq_ignore_ascii_case(name@, "monospace"@),
{
    let cs = chars_of(name);
    crate::text::eq_ignore_case(&cs, "monospace")
}

/// The Unicode lower case of `s`, as `str::to_lowercase` computes it.
pub uninterp spec fn lowercase(s: Seq<char>) -> Seq<char>;

/// `str::to_lowercase`: the Unicode lower case of `s`.  The contract names
/// the result; the case tables are not stated.
#[verifier::external_body]
fn str_to_lowercase(s: &str) -> (res: String)
    ensures
        res@ == lowercase(s@),
{
    s.to_lowercase()
}

/// `s` with every space removed.
pub open spec fn without_spaces(s: Seq<char>) -> Seq<char>
    decreases s.len(),
{
    if s.len() == 0 {
        Seq::empty()
    } else {
        let prev = without_spaces(s.drop_last());
        if s.last() == ' ' {
            prev
        } else {
            prev.push(s.last())
        }
    }
}

/// A family name reduced for loose matching: lower case, spaces removed.
pub open spec fn loose_family(s: Seq<char>) -> Seq<char> {
    without_spaces(lowercase(s))
}

/// The family name reduced for loose matching.
pub fn loose_family_name(name: &str) -> (res: String)
    ensures
        res@ == loose_family(name@),
{
    let lower = str_to_lowercase(name);
    let cs = chars_of(lower.as_str());
    let mut out: Vec<char> = Vec::new();
    let mut i: usize = 0;
    while i < cs.len()
        invariant
            cs@ == lowercase(name@),
            i <= cs@.len(),
            out@ == without_spaces(cs@.take(i as int)),
        decreases cs@.len() - i,
    {
        proof {
            assert(cs@.take(i + 1).drop_last() =~= cs@.take(i as int));
        }
        if cs[i] != ' ' {
            out.push(cs[i]);
        }
        i = i + 1;
    }
    proof {
        assert(cs@.take(cs@.len() as int) =~= cs@);
    }
    string_of(&out)
}

/// The first installed family whose loose form is `key`, in list order.
pub open spec fn first_loose_match(installed: Seq<Seq<char>>, key: Seq<char>) -> Option<Seq<char>>
    decreases installed.len(),
{
    if installed.len() == 0 {
        None
    } else if loose_family(installed[0]) == key {
        Some(installed[0])
    } else {
        first_loose_match(installed.drop_first(), key)
    }
}

/// The installed family that the name `name` designates: the default family
/// for the generic `monospace`, the name itself when it is installed, else
/// the first installed family that matches it loosely.
pub open spec fn installed_family(name: Seq<char>, installed: Seq<Seq<char>>, default: Seq<char>) -> Option<
    Seq<char>,
> {
    if crate::text::eq_ignore_ascii_case(name, "monospace"@) {
        Some(default)
    } else if installed.contains(name) {
        Some(name)
    } else {
        first_loose_match(installed, loose_family(name))
    }
}

/// Whether `name` is among `installed`.
fn is_installed(name: &str, installed: &Vec<String>) -> (res: bool)
    ensures
        res == strings_view(installed@).contains(name@),
{
    let ghost iv = strings_view(installed@);
    let mut i: usize = 0;
    while i < installed.len()
        invariant
            i <= installed@.len(),
            iv == strings_view(installed@),
            forall|j: int| 0 <= j < i ==> iv[j] != name@,
        decreases installed@.len() - i,
    {
        if crate::text::str_eq(installed[i].as_str(), name) {
            proof {
                assert(iv[i as int] == name@);
            }
            return true;
        }
        i = i + 1;
    }
    false
}

/// The first installed family that matches `name` loosely.
fn find_loose_match(name: &str, installed: &Vec<String>) -> (res: Option<String>)
    ensures
        match res {
            Some(f) => first_loose_match(strings_view(installed@), loose_family(name@)) == Some(f@),
            None => first_loose_match(strings_view(installed@), loose_family(name@)) is None,
        },
{
    let ghost iv = strings_view(installed@);
    let key = loose_family_name(name);
    proof {
        assert(iv.skip(0) =~= iv);
    }
    let mut i: usize = 0;
    while i < installed.len()
        invariant
            i <= installed@.len(),
            iv == strings_view(installed@),
            key@ == loose_family(name@),
            first_loose_match(iv, key@) == first_loose_match(iv.skip(i as int), key@),
        decreases installed@.len() - i,
    {
        let ghost rest = iv.skip(i as int);
        proof {
            assert(rest[0] == installed@[i as int]@);
            assert(rest.drop_first() =~= iv.skip(i + 1));
        }
        let cand = loose_family_name(installed[i].as_str());
        if crate::text::str_eq(cand.as_str(), key.as_str()) {
            return Some(installed[i].clone());
        }
        i = i + 1;
    }
    None
}

/// The installed family that `name` designates (see `installed_family`).
pub fn match_installed(name: &str, installed: &Vec<String>, default_family: &str) -> (res: Option<
    String,
>)
    ensures
        match res {
            Some(f) => installed_family(name@, strings_view(installed@), default_family@) == Some(
                f@,
            ),
            None => installed_family(name@, strings_view(installed@), default_family@) is None,
        },
{
    if is_generic_monospace(name) {
        Some(String::from_str(default_family))
    } else if is_installed(name, installed) {
        Some(String::from_str(name))
    } else {
        find_loose_match(name, installed)
    }
}

/// The entries of a `guifont` value, in order: none when it is blank.
pub open spec fn guifont_entries_spec(guifont: Seq<char>) -> Seq<GuiFontView> {
    let t = trimmed(guifont);
    if t.len() == 0 {
        Seq::empty()
    } else {
        split_at_char(t, ',').map_values(|e: Seq<char>| parse_entry(trimmed(e)))
    }
}

/// Reads every comma-separated entry of a `guifont` value.
pub fn guifont_entries(guifont: &str) -> (res: Vec<ParsedGuiFont>)
    ensures
        res@.map_values(|e: ParsedGuiFont| e@) == guifont_entries_spec(guifont@),
{
    let cs = chars_of(guifont);
    let t = trim_chars(&cs);
    let mut out: Vec<ParsedGuiFont> = Vec::new();
    if t.len() == 0 {
        proof {
            assert(out@.map_values(|e: ParsedGuiFont| e@) =~= guifont_entries_spec(guifont@));
        }
        return out;
    }
    let entries = split_chars(&t, ',');
    let ghost ev = entries@.map_values(|p: Vec<char>| p@);
    let ghost want = split_at_char(t@, ',').map_values(|e: Seq<char>| parse_entry(trimmed(e)));
    let mut i: usize = 0;
    while i < entries.len()
        invariant
            i <= entries@.len(),
            ev == entries@.map_values(|p: Vec<char>| p@),
            ev == split_at_char(t@, ','),
            want == ev.map_values(|e: Seq<char>| parse_entry(trimmed(e))),
            out@.map_values(|e: ParsedGuiFont| e@) == want.take(i as int),
        decreases entries@.len() - i,
    {
        let e = trim_chars(&entries[i]);
        let parsed = parse_entry_chars(&e);
        let ghost prev = out@;
        proof {
            assert(ev[i as int] == entries@[i as int]@);
            assert(want[i as int] == parsed@);
            assert(want.take(i + 1) =~= want.take(i as int).push(want[i as int]));
        }
        out.push(parsed);
        proof {
            assert(out@ =~= prev.push(parsed));
            assert(out@.map_values(|e: ParsedGuiFont| e@) =~= prev.map_values(
                |e: ParsedGuiFont| e@,
            ).push(parsed@));
        }
        i = i + 1;
    }
    proof {
        assert(want.take(entries@.len() as int) =~= want);
    }
    out
}

/// The first entry, in order, whose family designates an installed family.
pub open spec fn first_resolved(
    entries: Seq<GuiFontView>,
    installed: Seq<Seq<char>>,
    default: Seq<char>,
) -> Option<Seq<char>>
    decreases entries.len(),
{
    if entries.len() == 0 {
        None
    } else {
        match entries[0].family {
            Some(name) => match installed_family(name, installed, default) {
                Some(f) => Some(f),
                None => first_resolved(entries.drop_first(), installed, default),
            },
            None => first_resolved(entries.drop_first(), installed, default),
        }
    }
}

/// The family a `guifont` value selects among the installed families: the
/// first entry that designates one, else the default family.
pub open spec fn resolved_family(guifont: Seq<char>, installed: Seq<Seq<char>>, default: Seq<char>) -> Seq<
    char,
> {
    match first_resolved(guifont_entries_spec(guifont), installed, default) {
        Some(f) => f,
        None => default,
    }
}

/// The family that the `guifont` value selects among the installed
/// families `installed` (see `resolved_family`).
pub fn resolve_guifont_family(guifont: &str, installed: &Vec<String>, default_family: &str) -> (res:
    String)
    ensures
        res@ == resolved_family(guifont@, strings_view(installed@), default_family@),
{
    let entries = guifont_entries(guifont);
    let ghost ev = entries@.map_values(|e: ParsedGuiFont| e@);
    proof {
        assert(ev.skip(0) =~= ev);
    }
    let mut i: usize = 0;
    while i < entries.len()
        invariant
            i <= entries@.len(),
            ev == entries@.map_values(|e: ParsedGuiFont| e@),
            ev == guifont_entries_spec(guifont@),
            first_resolved(ev, strings_view(installed@), default_family@) == first_resolved(
                ev.skip(i as int),
                strings_view(installed@),
                default_family@,
            ),
        decreases entries@.len() - i,
    {
        let ghost rest = ev.skip(i as int);
        proof {
            assert(rest[0] == entries@[i as int]@);
            assert(rest.drop_first() =~= ev.skip(i + 1));
        }
        match &entries[i].family {
            Some(name) => {
                match match_installed(name.as_str(), installed, default_family) {
                    Some(f) => {
                        return f;
                    },
                    None => {},
                }
            },
            None => {},
        }
        i = i + 1;
    }
    String::from_str(default_family)
}

/// Well-known monospace families, in order of preference.
pub open spec fn preferred_monospace() -> Seq<Seq<char>> {
    seq![
        "JetBrains Mono"@,
        "JetBrainsMono Nerd Font"@,
        "JetBrainsMono NF"@,
        "Fira Code"@,
        "Source Code Pro"@,
        "Cascadia Code"@,
        "Cascadia Mono"@,
        "DejaVu Sans Mono"@,
        "Liberation Mono"@,
        "Ubuntu Mono"@,
        "Noto Sans Mono"@,
        "Hack"@,
        "Inconsolata"@,
        "Adwaita Mono"@,
        "Nimbus Mono PS"@,
        "Droid Sans Mono"@,
        "Courier New"@,
    ]
}

/// The preferred monospace families, in order.
pub fn preferred_monospace_families() -> (res: Vec<String>)
    ensures
        strings_view(res@) == preferred_monospace(),
{
    let mut v: Vec<String> = Vec::new();
    v.push(String::from_str("JetBrains Mono"));
    v.push(String::from_str("JetBrainsMono Nerd Font"));
    v.push(String::from_str("JetBrainsMono NF"));
    v.push(String::from_str("Fira Code"));
    v.push(String::from_str("Source Code Pro"));
    v.push(String::from_str("Cascadia Code"));
    v.push(String::from_str("Cascadia Mono"));
    v.push(String::from_str("DejaVu Sans Mono"));
    v.push(String::from_str("Liberation Mono"));
    v.push(String::from_str("Ubuntu Mono"));
    v.push(String::from_str("Noto Sans Mono"));
    v.push(String::from_str("Hack"));
    v.push(String::from_str("Inconsolata"));
    v.push(String::from_str("Adwaita Mono"));
    v.push(String::from_str("Nimbus Mono PS"));
    v.push(String::from_str("Droid Sans Mono"));
    v.push(String::from_str("Courier New"));
    proof {
        assert(strings_view(v@) =~= preferred_monospace());
    }
    v
}

/// Whether the family's name suggests a monospace face: its lower case
/// holds "mono" or "courier" but not "emoji".
pub open spec fn looks_monospace(f: Seq<char>) -> bool {
    let l = lowercase(f);
    (has_infix(l, "mono"@) || has_infix(l, "courier"@)) && !has_infix(l, "emoji"@)
}

/// The first of the preferred families that is installed.
pub open spec fn first_installed(preferred: Seq<Seq<char>>, installed: Seq<Seq<char>>) -> Option<
    Seq<char>,
>
    decreases preferred.len(),
{
    if preferred.len() == 0 {
        None
    } else if installed.contains(preferred[0]) {
        Some(preferred[0])
    } else {
        first_installed(preferred.drop_first(), installed)
    }
}

/// The first installed family whose name suggests a monospace face.
pub open spec fn first_monospace_named(installed: Seq<Seq<char>>) -> Option<Seq<char>>
    decreases installed.len(),
{
    if installed.len() == 0 {
        None
    } else if looks_monospace(installed[0]) {
        Some(installed[0])
    } else {
        first_monospace_named(installed.drop_first())
    }
}

/// The default family when the configuration names none.  On macOS and
/// Windows it is the platform's own.  On Linux it is the first that exists
/// of: the family fontconfig reports for `monospace` (`fc`), as installed
/// or matched loosely; the first installed preferred family; the first
/// installed family whose name suggests monospace; the platform's own.
pub open spec fn system_monospace(os: TargetOs, fc: Option<Seq<char>>, installed: Seq<Seq<char>>) -> Seq<
    char,
> {
    let platform = match os {
        TargetOs::MacOs => "Menlo"@,
        TargetOs::Windows => "Consolas"@,
        TargetOs::Linux => "DejaVu Sans Mono"@,
    };
    let from_lists = match first_installed(preferred_monospace(), installed) {
        Some(p) => p,
        None => match first_monospace_named(installed) {
            Some(f) => f,
            None => platform,
        },
    };
    if os != TargetOs::Linux {
        platform
    } else {
        match fc {
            Some(n) => if installed.contains(n) {
                n
            } else {
                match first_loose_match(installed, loose_family(n)) {
                    Some(f) => f,
                    None => from_lists,
                }
            },
            None => from_lists,
        }
    }
}

/// The first of `preferred` that is installed.
fn find_first_installed(preferred: &Vec<String>, installed: &Vec<String>) -> (res: Option<String>)
    ensures
        match res {
            Some(f) => first_installed(strings_view(preferred@), strings_view(installed@)) == Some(
                f@,
            ),
            None => first_installed(strings_view(preferred@), strings_view(installed@)) is None,
        },
{
    let ghost pv = strings_view(preferred@);
    let ghost iv = strings_view(installed@);
    proof {
        assert(pv.skip(0) =~= pv);
    }
    let mut i: usize = 0;
    while i < preferred.len()
        invariant
            i <= preferred@.len(),
            pv == strings_view(preferred@),
            iv == strings_view(installed@),
            first_installed(pv, iv) == first_installed(pv.skip(i as int), iv),
        decreases preferred@.len() - i,
    {
        proof {
            assert(pv.skip(i as int)[0] == preferred@[i as int]@);
            assert(pv.skip(i as int).drop_first() =~= pv.skip(i + 1));
        }
        if is_installed(preferred[i].as_str(), installed) {
            return Some(preferred[i].clone());
        }
        i = i + 1;
    }
    None
}

/// Whether the family's name suggests a monospace face.
fn name_looks_monospace(f: &str) -> (res: bool)
    ensures
        res == looks_monospace(f@),
{
    let lower = str_to_lowercase(f);
    let cs = chars_of(lower.as_str());
    (contains_chars(&cs, "mono") || contains_chars(&cs, "courier")) && !contains_chars(&cs, "emoji")
}

/// The first installed family whose name suggests a monospace face.
fn find_monospace_named(installed: &Vec<String>) -> (res: Option<String>)
    ensures
        match res {
            Some(f) => first_monospace_named(strings_view(installed@)) == Some(f@),
            None => first_monospace_named(strings_view(installed@)) is None,
        },
{
    let ghost iv = strings_view(installed@);
    proof {
        assert(iv.skip(0) =~= iv);
    }
    let mut i: usize = 0;
    while i < installed.len()
        invariant
            i <= installed@.len(),
            iv == strings_view(installed@),
            first_monospace_named(iv) == first_monospace_named(iv.skip(i as int)),
        decreases installed@.len() - i,
    {
        proof {
            assert(iv.skip(i as int)[0] == installed@[i as int]@);
            assert(iv.skip(i as int).drop_first() =~= iv.skip(i + 1));
        }
        if name_looks_monospace(installed[i].as_str()) {
            return Some(installed[i].clone());
        }
        i = i + 1;
    }
    None
}

/// The family used when the configuration names none (see
/// `system_monospace`), from what fontconfig reports for `monospace` and
/// the installed families.
pub fn resolve_default_font_family(os: TargetOs, fc: Option<&str>, installed: &Vec<String>) -> (res: String)
    ensures
        res@ == system_monospace(
            os,
            match fc {
                Some(n) => Some(n@),
                None => None,
            },
            strings_view(installed@),
        ),
{
    if os != TargetOs::Linux {
        return String::from_str(default_font_family(os));
    }
    match fc {
        Some(n) => {
            if is_installed(n, installed) {
                return String::from_str(n);
            }
            match find_loose_match(n, installed) {
                Some(f) => {
                    return f;
                },
                None => {},
            }
        },
        None => {},
    }
    let preferred = preferred_monospace_families();
    match find_first_installed(&preferred, installed) {
        Some(p) => p,
        None => match find_monospace_named(installed) {
            Some(f) => f,
            None => String::from_str(default_font_family(os)),
        },
    }
}

} // verus!
