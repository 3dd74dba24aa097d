//! MessagePack values as they travel over Neovim's RPC channel.
//!
//! Floating-point numbers are kept as their IEEE-754 bit patterns, and a
//! string whose bytes are not valid UTF-8 keeps those bytes.
use vstd::prelude::*;

verus! {

broadcast use vstd::std_specs::vec::axiom_vec_index_decreases;

/// The abstract content of a MessagePack value.
pub enum ValueView {
    Nil,
    Boolean(bool),
    PosInt(u64),
    NegInt(i64),
    F32(u32),
    F64(u64),
    String(Seq<char>),
    InvalidString(Seq<u8>),
    Binary(Seq<u8>),
    Array(Seq<ValueView>),
    Dict(Seq<(ValueView, ValueView)>),
    Ext(i8, Seq<u8>),
}

/// A MessagePack value.
///
/// An integer is held as `PosInt` when it is zero or more and as `NegInt`
/// when it is negative; the constructors keep to that form, and the
/// accessors read either variant by its numeric value.
#[derive(Debug, PartialEq)]
pub enum RpcValue {
    Nil,
    Boolean(bool),
    PosInt(u64),
    NegInt(i64),
    /// A 32-bit float, by its bit pattern.
    F32(u32),
    /// A 64-bit float, by its bit pattern.
    F64(u64),
    String(String),
    /// A string whose bytes are not valid UTF-8.
    InvalidString(Vec<u8>),
    Binary(Vec<u8>),
    Array(Vec<RpcValue>),
    Dict(Vec<(RpcValue, RpcValue)>),
    Ext(i8, Vec<u8>),
}

/// The abstract content of `v`.
pub open spec fn value_view(v: RpcValue) -> ValueView
    decreases v,
{
    match v {
        RpcValue::Nil => ValueView::Nil,
        RpcValue::Boolean(b) => ValueView::Boolean(b),
        RpcValue::PosInt(n) => ValueView::PosInt(n),
        RpcValue::NegInt(n) => ValueView::NegInt(n),
        RpcValue::F32(b) => ValueView::F32(b),
        RpcValue::F64(b) => ValueView::F64(b),
        RpcValue::String(s) => ValueView::String(s@),
        RpcValue::InvalidString(b) => ValueView::InvalidString(b@),
        RpcValue::Binary(b) => ValueView::Binary(b@),
        RpcValue::Array(items) => ValueView::Array(
            Seq::new(
                items@.len(),
                |i: int|
                    if 0 <= i < items@.len() {
                        value_view(items[i])
                    } else {
                        ValueView::Nil
                    },
            ),
        ),
        RpcValue::Dict(entries) => ValueView::Dict(
            Seq::new(
                entries@.len(),
                |i: int|
                    if 0 <= i < entries@.len() {
                        (value_view(entries[i].0), value_view(entries[i].1))
                    } else {
                        (ValueView::Nil, ValueView::Nil)
                    },
            ),
        ),
        RpcValue::Ext(t, b) => ValueView::Ext(t, b@),
    }
}

/// The abstract contents of a sequence of values.
pub open spec fn values_view(items: Seq<RpcValue>) -> Seq<ValueView> {
    items.map_values(|v: RpcValue| v@)
}

/// The abstract contents of a sequence of key/value pairs.
pub open spec fn entries_view(entries: Seq<(RpcValue, RpcValue)>) -> Seq<(ValueView, ValueView)> {
    entries.map_values(|e: (RpcValue, RpcValue)| (e.0@, e.1@))
}

impl View for RpcValue {
    type V = ValueView;

    open spec fn view(&self) -> ValueView {
        value_view(*self)
    }
}

impl ValueView {
    /// The value as a `u64`, when it is an integer in `0..=u64::MAX`.
    pub open spec fn to_u64(self) -> Option<u64> {
        match self {
            ValueView::PosInt(n) => Some(n),
            ValueView::NegInt(n) => if n >= 0 {
                Some(n as u64)
            } else {
                None
            },
            _ => None,
        }
    }

    /// The value as an `i64`, when it is an integer in the range of `i64`.
    pub open spec fn to_i64(self) -> Option<i64> {
        match self {
            ValueView::PosInt(n) => if n <= i64::MAX {
                Some(n as i64)
            } else {
                None
            },
            ValueView::NegInt(n) => Some(n),
            _ => None,
        }
    }

    /// The characters of the value, when it is a valid UTF-8 string.
    pub open spec fn to_str(self) -> Option<Seq<char>> {
        match self {
            ValueView::String(s) => Some(s),
            _ => None,
        }
    }

    /// The value as a `bool`, when it is a boolean.
    pub open spec fn to_bool(self) -> Option<bool> {
        match self {
            ValueView::Boolean(b) => Some(b),
            _ => None,
        }
    }

    /// The items of the value, when it is an array.
    pub open spec fn to_array(self) -> Option<Seq<ValueView>> {
        match self {
            ValueView::Array(items) => Some(items),
            _ => None,
        }
    }

    /// The entries of the value, when it is a map.
    pub open spec fn to_map(self) -> Option<Seq<(ValueView, ValueView)>> {
        match self {
            ValueView::Dict(entries) => Some(entries),
            _ => None,
        }
    }
}

/// The view of an integer, in the form the constructors produce.
pub open spec fn int_view(n: int) -> ValueView {
    if n >= 0 {
        ValueView::PosInt(n as u64)
    } else {
        ValueView::NegInt(n as i64)
    }
}

impl RpcValue {
    /// The view of the array items `items`.
    pub proof fn lemma_array_view(items: Vec<RpcValue>)
        ensures
            (RpcValue::Array(items))@ == ValueView::Array(values_view(items@)),
    {
        let vv = value_view(RpcValue::Array(items));
        assert(vv->Array_0 =~= values_view(items@));
    }

    /// The view of the map entries `entries`.
    pub proof fn lemma_map_view(entries: Vec<(RpcValue, RpcValue)>)
        ensures
            (RpcValue::Dict(entries))@ == ValueView::Dict(entries_view(entries@)),
    {
        let vv = value_view(RpcValue::Dict(entries));
        assert(vv->Dict_0 =~= entries_view(entries@));
    }

    /// The nil value.
    pub fn nil() -> (res: RpcValue)
        ensures
            res@ == ValueView::Nil,
    {
        RpcValue::Nil
    }

    /// A boolean value.
    pub fn from_bool(b: bool) -> (res: RpcValue)
        ensures
            res@ == ValueView::Boolean(b),
    {
        RpcValue::Boolean(b)
    }

    /// An unsigned integer value.
    pub fn from_u64(n: u64) -> (res: RpcValue)
        ensures
            res@ == int_view(n as int),
    {
        RpcValue::PosInt(n)
    }

    /// A signed integer value.
    pub fn from_i64(n: i64) -> (res: RpcValue)
        ensures
            res@ == int_view(n as int),
    {
        if n >= 0 {
            RpcValue::PosInt(n as u64)
        } else {
            RpcValue::NegInt(n)
        }
    }

    /// A string value holding `s`.
    pub fn from_str(s: &str) -> (res: RpcValue)
        ensures
            res@ == ValueView::String(s@),
    {
        RpcValue::String(String::from_str(s))
    }

    /// A string value holding `s`.
    pub fn from_string(s: String) -> (res: RpcValue)
        ensures
            res@ == ValueView::String(s@),
    {
        RpcValue::String(s)
    }

    /// An array value holding `items`.
    pub fn from_array(items: Vec<RpcValue>) -> (res: RpcValue)
        ensures
            res@ == ValueView::Array(values_view(items@)),
    {
        proof {
            Self::lemma_array_view(items);
        }
        RpcValue::Array(items)
    }

    /// A map value holding `entries` in order.
    pub fn from_map(entries: Vec<(RpcValue, RpcValue)>) -> (res: RpcValue)
        ensures
            res@ == ValueView::Dict(entries_view(entries@)),
    {
        proof {
            Self::lemma_map_view(entries);
        }
        RpcValue::Dict(entries)
    }

    /// Whether the value is nil.
    pub fn is_nil(&self) -> (res: bool)
        ensures
            res == (self@ == ValueView::Nil),
    {
        match self {
            RpcValue::Nil => true,
            _ => false,
        }
    }

    /// The value as a `u64`, when it is an integer in `0..=u64::MAX`.
    pub fn as_u64(&self) -> (res: Option<u64>)
        ensures
            res == self@.to_u64(),
    {
        match self {
            RpcValue::PosInt(n) => Some(*n),
            RpcValue::NegInt(n) => if *n >= 0 {
                Some(*n as u64)
            } else {
                None
            },
            _ => None,
        }
    }

    /// The value as an `i64`, when it is an integer in the range of `i64`.
    pub fn as_i64(&self) -> (res: Option<i64>)
        ensures
            res == self@.to_i64(),
    {
        match self {
            RpcValue::PosInt(n) => if *n <= 0x7fff_ffff_ffff_ffff {
                Some(*n as i64)
            } else {
                None
            },
            RpcValue::NegInt(n) => Some(*n),
            _ => None,
        }
    }

    /// The text of the value, when it is a valid UTF-8 string.
    pub fn as_str(&self) -> (res: Option<&str>)
        ensures
            match res {
                Some(s) => self@.to_str() == Some(s@),
                None => self@.to_str() is None,
            },
    {
        match self {
            RpcValue::String(s) => Some(s.as_str()),
            _ => None,
        }
    }

    /// The value as a `bool`, when it is a boolean.
    pub fn as_bool(&self) -> (res: Option<bool>)
        ensures
            res == self@.to_bool(),
    {
        match self {
            RpcValue::Boolean(b) => Some(*b),
            _ => None,
        }
    }

    /// The items of the value, when it is an array.
    pub fn as_array(&self) -> (res: Option<&Vec<RpcValue>>)
        ensures
            match res {
                Some(items) => self@.to_array() == Some(values_view(items@)),
                None => self@.to_array() is None,
            },
    {
        match self {
            RpcValue::Array(items) => {
                proof {
                    Self::lemma_array_view(*items);
                }
                Some(items)
            },
            _ => None,
        }
    }

    /// The entries of the value, when it is a map.
    pub fn as_map(&self) -> (res: Option<&Vec<(RpcValue, RpcValue)>>)
        ensures
            match res {
                Some(entries) => self@.to_map() == Some(entries_view(entries@)),
                None => self@.to_map() is None,
            },
    {
        match self {
            RpcValue::Dict(entries) => {
                proof {
                    Self::lemma_map_view(*entries);
                }
                Some(entries)
            },
            _ => None,
        }
    }

    /// A copy of the value.
    pub fn duplicate(&self) -> (res: RpcValue)
        ensures
            res@ == self@,
        decreases self,
    {
        match self {
            RpcValue::Nil => RpcValue::Nil,
            RpcValue::Boolean(b) => RpcValue::Boolean(*b),
            RpcValue::PosInt(n) => RpcValue::PosInt(*n),
            RpcValue::NegInt(n) => RpcValue::NegInt(*n),
            RpcValue::F32(b) => RpcValue::F32(*b),
            RpcValue::F64(b) => RpcValue::F64(*b),
            RpcValue::String(s) => RpcValue::String(s.clone()),
            RpcValue::InvalidString(b) => RpcValue::InvalidString(copy_bytes(b)),
            RpcValue::Binary(b) => RpcValue::Binary(copy_bytes(b)),
            RpcValue::Array(items) => {
                let mut out: Vec<RpcValue> = Vec::new();
                let mut i: usize = 0;
                while i < items.len()
                    invariant
                        *self == RpcValue::Array(*items),
                        i <= items@.len(),
                        out@.len() == i,
                        forall|j: int| 0 <= j < i ==> (#[trigger] out@[j])@ == items@[j]@,
                    decreases items@.len() - i,
                {
                    proof {
                        let ghost inner = (*self)->Array_0;
                        assert(decreases_to!(*self => (*self)->Array_0));
                        assert(decreases_to!(inner => inner[i as int]));
                        assert(decreases_to!(*self => items@[i as int]));
                    }
                    let v = items[i].duplicate();
                    out.push(v);
                    i = i + 1;
                }
                proof {
                    Self::lemma_array_view(*items);
                    Self::lemma_array_view(out);
                    assert(values_view(out@) =~= values_view(items@));
                }
                RpcValue::Array(out)
            },
            RpcValue::Dict(entries) => {
                let mut out: Vec<(RpcValue, RpcValue)> = Vec::new();
                let mut i: usize = 0;
                while i < entries.len()
                    invariant
                        *self == RpcValue::Dict(*entries),
                        i <= entries@.len(),
                        out@.len() == i,
                        forall|j: int|
                            0 <= j < i ==> (#[trigger] out@[j]).0@ == entries@[j].0@ && out@[j].1@
                                == entries@[j].1@,
                    decreases entries@.len() - i,
                {
                    proof {
                        let ghost inner = (*self)->Dict_0;
                        assert(decreases_to!(*self => (*self)->Dict_0));
                        assert(decreases_to!(inner => inner[i as int]));
                        assert(decreases_to!(entries@[i as int] => entries@[i as int].0));
                        assert(decreases_to!(entries@[i as int] => entries@[i as int].1));
                        assert(decreases_to!(*self => entries@[i as int].0));
                        assert(decreases_to!(*self => entries@[i as int].1));
                    }
                    let k = entries[i].0.duplicate();
                    let v = entries[i].1.duplicate();
                    out.push((k, v));
                    i = i + 1;
                }
                proof {
                    Self::lemma_map_view(*entries);
                    Self::lemma_map_view(out);
                    assert(entries_view(out@) =~= entries_view(entries@));
                }
                RpcValue::Dict(out)
            },
            RpcValue::Ext(t, b) => RpcValue::Ext(*t, copy_bytes(b)),
        }
    }
}

impl Clone for RpcValue {
    fn clone(&self) -> (res: Self)
        ensures
            res@ == self@,
    {
        self.duplicate()
    }
}

/// A copy of a byte vector.
pub fn copy_bytes(b: &Vec<u8>) -> (res: Vec<u8>)
    ensures
        res@ == b@,
{
    let mut out: Vec<u8> = Vec::new();
    let mut i: usize = 0;
    while i < b.len()
        invariant
            i <= b@.len(),
            out@ == b@.subrange(0, i as int),
        decreases b@.len() - i,
    {
        out.push(b[i]);
        i = i + 1;
        assert(out@ =~= b@.subrange(0, i as int));
    }
    assert(b@.subrange(0, b@.len() as int) =~= b@);
    out
}

/// A copy of a sequence of values.
pub fn copy_values(items: &Vec<RpcValue>) -> (res: Vec<RpcValue>)
    ensures
        values_view(res@) == values_view(items@),
{
    let mut out: Vec<RpcValue> = Vec::new();
    let mut i: usize = 0;
    while i < items.len()
        invariant
            i <= items@.len(),
            out@.len() == i,
            forall|j: int| 0 <= j < i ==> (#[trigger] out@[j])@ == items@[j]@,
        decreases items@.len() - i,
    {
        out.push(items[i].duplicate());
        i = i + 1;
    }
    assert(values_view(out@) =~= values_view(items@));
    out
}

} // verus!
