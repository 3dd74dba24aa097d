//! The text being composed by an input method, which the platform addresses
//! in UTF-16 code units.
use crate::text::chars_of;
use vstd::prelude::*;

verus! {

/// The UTF-16 code units of one character: itself below U+10000, else a
/// high and a low surrogate.
pub open spec fn char_units(c: char) -> Seq<u16> {
    let v = c as u32;
    if v < 0x10000 {
        seq![v as u16]
    } else {
        seq![(0xD800 + (v - 0x10000) / 0x400) as u16, (0xDC00 + (v - 0x10000) % 0x400) as u16]
    }
}

/// The UTF-16 encoding of `s`, as `str::encode_utf16` produces it.
pub open spec fn utf16_units(s: Seq<char>) -> Seq<u16>
    decreases s.len(),
{
    if s.len() == 0 {
        Seq::empty()
    } else {
        utf16_units(s.drop_last()) + char_units(s.last())
    }
}

/// The characters that UTF-16 `units` decode to, as `char::decode_utf16`
/// reads them: a unit outside the surrogate range is a character; a high
/// surrogate followed by a low one is the character they encode together;
/// any other surrogate is an error, read as U+FFFD, and decoding goes on
/// with the next unit.
pub open spec fn utf16_decoded(units: Seq<u16>) -> Seq<char>
    decreases units.len(),
{
    if units.len() == 0 {
        Seq::empty()
    } else {
        let u = units[0] as u32;
        if u < 0xD800 || u > 0xDFFF {
            seq![u as char] + utf16_decoded(units.skip(1))
        } else if u <= 0xDBFF && units.len() > 1 && 0xDC00 <= units[1] <= 0xDFFF {
            let v = (0x10000 + (u - 0xD800) * 0x400 + (units[1] - 0xDC00)) as u32;
            seq![v as char] + utf16_decoded(units.skip(2))
        } else {
            seq!['\u{FFFD}'] + utf16_decoded(units.skip(1))
        }
    }
}

/// `String::from_utf16_lossy`: decodes UTF-16 as `char::decode_utf16`
/// does and puts U+FFFD in place of each error, as its documentation says.
#[verifier::external_body]
fn string_from_utf16_lossy(units: &[u16]) -> (res: String)
    ensures
        res@ == utf16_decoded(units@),
{
    String::from_utf16_lossy(units)
}

/// The encoding of a string starts with the units of its first character.
proof fn lemma_units_front(s: Seq<char>)
    requires
        s.len() > 0,
    ensures
        utf16_units(s) == char_units(s[0]) + utf16_units(s.drop_first()),
    decreases s.len(),
{
    if s.len() > 1 {
        lemma_units_front(s.drop_last());
        assert(s.drop_last().drop_first() =~= s.drop_first().drop_last());
        assert(s.drop_first().last() == s.last());
        assert(s.drop_last()[0] == s[0]);
        assert(utf16_units(s) =~= char_units(s[0]) + utf16_units(s.drop_first()));
    } else {
        assert(s.drop_last() =~= Seq::<char>::empty());
        assert(s.drop_first() =~= Seq::<char>::empty());
        assert(utf16_units(s) =~= char_units(s[0]) + utf16_units(s.drop_first()));
    }
}

/// Decoding the units of a character gives the character back.
proof fn lemma_decode_char(c: char, rest: Seq<u16>)
    ensures
        utf16_decoded(char_units(c) + rest) == seq![c] + utf16_decoded(rest),
{
    let v = c as u32;
    vstd::utf8::char_is_scalar(c);
    vstd::utf8::char_u32_cast(c, v);
    let all = char_units(c) + rest;
    if v < 0x10000 {
        assert(all[0] == v as u16);
        assert(all.skip(1) =~= rest);
    } else {
        let hi = (0xD800 + (v - 0x10000) / 0x400) as u16;
        let lo = (0xDC00 + (v - 0x10000) % 0x400) as u16;
        assert(all[0] == hi && all[1] == lo);
        assert(all.skip(2) =~= rest);
        assert(0x10000 + (hi - 0xD800) * 0x400 + (lo - 0xDC00) == v);
    }
}

/// The UTF-16 encoding of a string decodes to that string.
pub proof fn lemma_utf16_roundtrip(s: Seq<char>)
    ensures
        utf16_decoded(utf16_units(s)) == s,
    decreases s.len(),
{
    if s.len() > 0 {
        lemma_units_front(s);
        lemma_decode_char(s[0], utf16_units(s.drop_first()));
        lemma_utf16_roundtrip(s.drop_first());
        assert(seq![s[0]] + s.drop_first() =~= s);
    }
}

/// The UTF-16 code units of the character.
fn units_of_char(c: char) -> (res: (u16, Option<u16>))
    ensures
        char_units(c) == match res.1 {
            Some(lo) => seq![res.0, lo],
            None => seq![res.0],
        },
{
    let v = c as u32;
    if v < 0x10000 {
        (v as u16, None)
    } else {
        proof {
            assert(v <= 0x10FFFF);
        }
        let hi = (0xD800 + (v - 0x10000) / 0x400) as u16;
        let lo = (0xDC00 + (v - 0x10000) % 0x400) as u16;
        (hi, Some(lo))
    }
}

/// The UTF-16 encoding of `s`.
pub fn encode_utf16(s: &str) -> (res: Vec<u16>)
    ensures
        res@ == utf16_units(s@),
{
    let cs = chars_of(s);
    let mut out: Vec<u16> = Vec::new();
    let mut i: usize = 0;
    while i < cs.len()
        invariant
            cs@ == s@,
            i <= cs@.len(),
            out@ == utf16_units(cs@.take(i as int)),
        decreases cs@.len() - i,
    {
        proof {
            assert(cs@.take(i + 1).drop_last() =~= cs@.take(i as int));
            assert(cs@.take(i + 1).last() == cs@[i as int]);
        }
        let (hi, lo) = units_of_char(cs[i]);
        out.push(hi);
        match lo {
            Some(l) => out.push(l),
            None => {},
        }
        i = i + 1;
        proof {
            assert(out@ =~= utf16_units(cs@.take(i as int)));
        }
    }
    proof {
        assert(cs@.take(cs@.len() as int) =~= cs@);
    }
    out
}

/// The length of the composed text in UTF-16 code units (0 when none).
pub open spec fn marked_len(marked: Option<Seq<char>>) -> nat {
    match marked {
        Some(t) => utf16_units(t).len(),
        None => 0,
    }
}

/// The selection the platform sees: an empty range at the end of the
/// composed text.
pub fn selected_text_range(marked: Option<&str>) -> (res: (usize, usize))
    ensures
        res.0 == res.1,
        res.0 == marked_len(
            match marked {
                Some(t) => Some(t@),
                None => None,
            },
        ),
{
    match marked {
        Some(t) => {
            let u = encode_utf16(t);
            (u.len(), u.len())
        },
        None => (0, 0),
    }
}

/// The range the composed text covers, when there is composed text.
pub fn marked_text_range(marked: Option<&str>) -> (res: Option<(usize, usize)>)
    ensures
        match marked {
            Some(t) => res == Some((0usize, utf16_units(t@).len() as usize)),
            None => res is None,
        },
{
    match marked {
        Some(t) => {
            let u = encode_utf16(t);
            Some((0, u.len()))
        },
        None => None,
    }
}

/// The part of the composed text that a UTF-16 range asks for, with the
/// range clamped to the text; `None` when the clamped range is reversed.
pub open spec fn text_in_range(text: Seq<char>, start: usize, end: usize) -> Option<
    (Seq<char>, (usize, usize)),
> {
    let u = utf16_units(text);
    let s = if start < u.len() {
        start as int
    } else {
        u.len() as int
    };
    let e = if end < u.len() {
        end as int
    } else {
        u.len() as int
    };
    if s <= e {
        Some((utf16_decoded(u.subrange(s, e)), (s as usize, e as usize)))
    } else {
        None
    }
}

/// The composed text in the UTF-16 range `start..end` and the range
/// actually read (see `text_in_range`); `None` without composed text.
pub fn text_for_range(marked: Option<&str>, start: usize, end: usize) -> (res: Option<
    (String, (usize, usize)),
>)
    ensures
        match marked {
            Some(t) => match text_in_range(t@, start, end) {
                Some((txt, range)) => res matches Some((r, rr)) && r@ == txt && rr == range,
                None => res is None,
            },
            None => res is None,
        },
        match marked {
            Some(t) => start == 0 && end >= utf16_units(t@).len() ==> (res matches Some((r, rr))
                && r@ == t@),
            None => true,
        },
{
    match marked {
        Some(t) => {
            let u = encode_utf16(t);
            let n = u.len();
            let s = if start < n {
                start
            } else {
                n
            };
            let e = if end < n {
                end
            } else {
                n
            };
            if s <= e {
                let mut part: Vec<u16> = Vec::new();
                let mut i = s;
                while i < e
                    invariant
                        s <= i <= e <= n,
                        n == u@.len(),
                        part@ == u@.subrange(s as int, i as int),
                    decreases e - i,
                {
                    part.push(u[i]);
                    i = i + 1;
                    proof {
                        assert(part@ =~= u@.subrange(s as int, i as int));
                    }
                }
                proof {
                    if s == 0 && e == n {
                        assert(part@ =~= utf16_units(t@));
                        lemma_utf16_roundtrip(t@);
                    }
                }
                let txt = string_from_utf16_lossy(part.as_slice());
                Some((txt, (s, e)))
            } else {
                None
            }
        },
        None => None,
    }
}

/// The text an input method is composing, if any.
#[derive(Debug)]
pub struct Composition {
    pub marked: Option<String>,
}

/// The abstract content of an optional string.
pub open spec fn marked_view(m: Option<String>) -> Option<Seq<char>> {
    match m {
        Some(t) => Some(t@),
        None => None,
    }
}

impl Composition {
    /// Nothing composed.
    pub fn new() -> (res: Self)
        ensures
            res.marked is None,
    {
        Composition { marked: None }
    }

    /// The input method shows `text` as composed (nothing when it is empty).
    pub fn mark(&mut self, text: &str)
        ensures
            marked_view(final(self).marked) == (if text@.len() == 0 {
                None
            } else {
                Some(text@)
            }),
    {
        if text.is_empty() {
            self.marked = None;
        } else {
            self.marked = Some(String::from_str(text));
        }
    }

    /// The composition is dropped.
    pub fn unmark(&mut self)
        ensures
            final(self).marked is None,
    {
        self.marked = None;
    }

    /// The input method commits `text`: the composition ends, and the text
    /// to send Neovim is returned (see `ime_commit`: only what ordinary key
    /// presses do not already send).
    pub fn commit(&mut self, text: &str) -> (res: Option<String>)
        ensures
            final(self).marked is None,
            match res {
                Some(t) => crate::mouse::ime_commit(old(self).marked is Some, text@) == Some(t@),
                None => crate::mouse::ime_commit(old(self).marked is Some, text@) is None,
            },
    {
        let had_marked = self.marked.is_some();
        self.marked = None;
        crate::mouse::ime_commit_text(had_marked, text)
    }

    /// The composed text as a slice, if any.
    fn marked_str(&self) -> (res: Option<&str>)
        ensures
            match res {
                Some(t) => marked_view(self.marked) == Some(t@),
                None => self.marked is None,
            },
    {
        match &self.marked {
            Some(t) => Some(t.as_str()),
            None => None,
        }
    }

    /// The composed text in a UTF-16 range (see `text_for_range`).
    pub fn text_for_range(&self, start: usize, end: usize) -> (res: Option<(String, (usize, usize))>)
        ensures
            match marked_view(self.marked) {
                Some(t) => match text_in_range(t, start, end) {
                    Some((txt, range)) => res matches Some((r, rr)) && r@ == txt && rr == range,
                    None => res is None,
                },
                None => res is None,
            },
    {
        text_for_range(self.marked_str(), start, end)
    }

    /// The selection the platform sees (see `selected_text_range`).
    pub fn selected_text_range(&self) -> (res: (usize, usize))
        ensures
            res.0 == res.1,
            res.0 == marked_len(marked_view(self.marked)),
    {
        selected_text_range(self.marked_str())
    }

    /// The range of the composed text (see `marked_text_range`).
    pub fn marked_text_range(&self) -> (res: Option<(usize, usize)>)
        ensures
            match marked_view(self.marked) {
                Some(t) => res == Some((0usize, utf16_units(t).len() as usize)),
                None => res is None,
            },
    {
        marked_text_range(self.marked_str())
    }
}

} // verus!
