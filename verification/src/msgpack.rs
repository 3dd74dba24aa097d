//! The MessagePack byte stream on Neovim's pipes.
//!
//! Reading: the bytes that have arrived are cut into the complete values at
//! their front; an incomplete value at the end waits for more bytes.
//! Writing: the messages waiting to be sent go out in one batch, each in its
//! MessagePack form.  The format itself is `rmpv`'s: what it reads from a
//! buffer and what it writes for a value are named here, not restated.
use crate::value::{values_view, RpcValue, ValueView};
use vstd::prelude::*;
use vstd::slice::slice_subrange;

verus! {

#[verifier::external_type_specification]
#[verifier::external_body]
pub struct ExMsgpackValue(rmpv::Value);

#[verifier::external_type_specification]
#[verifier::external_body]
pub struct ExMsgpackInteger(rmpv::Integer);

#[verifier::external_type_specification]
#[verifier::external_body]
pub struct ExMsgpackString(rmpv::Utf8String);

/// The value that `rmpv::decode::read_value` reads from the front of
/// `bytes`, with the number of bytes it takes; `None` where no complete
/// value can be read there.
pub uninterp spec fn msgpack_value_at(bytes: Seq<u8>) -> Option<(ValueView, nat)>;

/// The bytes that `rmpv::encode::write_value` writes for `v`.
pub uninterp spec fn msgpack_encoding(v: ValueView) -> Seq<u8>;

/// An `rmpv::Integer` as a library value: `PosInt` when `as_u64` has it,
/// else `NegInt` (rmpv keeps every integer below zero as an `i64`).
#[verifier::external_body]
fn integer_from_rmpv(n: rmpv::Integer) -> RpcValue {
    match n.as_u64() {
        Some(u) => RpcValue::PosInt(u),
        None => n.as_i64().map_or(RpcValue::Nil, RpcValue::NegInt),
    }
}

/// An `rmpv::Utf8String` as a library value: its text when it is valid
/// UTF-8, else its bytes.
#[verifier::external_body]
fn string_from_rmpv(s: rmpv::Utf8String) -> RpcValue {
    if s.is_str() {
        RpcValue::String(s.into_str().unwrap_or_default())
    } else {
        RpcValue::InvalidString(s.into_bytes())
    }
}

/// An `rmpv::Value` as a library value, variant for variant; a float keeps
/// its bit pattern.  Nothing is stated of it: `rmpv::Value` is opaque here,
/// and what a decoded buffer holds is stated through `msgpack_value_at`.
#[verifier::external_body]
fn value_from_rmpv(v: rmpv::Value) -> RpcValue {
    match v {
        rmpv::Value::Nil => RpcValue::Nil,
        rmpv::Value::Boolean(b) => RpcValue::Boolean(b),
        rmpv::Value::Integer(n) => integer_from_rmpv(n),
        rmpv::Value::F32(f) => RpcValue::F32(f.to_bits()),
        rmpv::Value::F64(f) => RpcValue::F64(f.to_bits()),
        rmpv::Value::String(s) => string_from_rmpv(s),
        rmpv::Value::Binary(b) => RpcValue::Binary(b),
        rmpv::Value::Array(a) => RpcValue::Array(a.into_iter().map(value_from_rmpv).collect()),
        rmpv::Value::Map(m) => RpcValue::Dict(m.into_iter().map(entry_from_rmpv).collect()),
        rmpv::Value::Ext(t, b) => RpcValue::Ext(t, b),
    }
}

/// A key/value pair of an `rmpv` map as a pair of library values.
#[verifier::external_body]
fn entry_from_rmpv(e: (rmpv::Value, rmpv::Value)) -> (RpcValue, RpcValue) {
    (value_from_rmpv(e.0), value_from_rmpv(e.1))
}

/// A library value as an `rmpv::Value`, variant for variant; a float is
/// rebuilt from its bit pattern by `float_to_rmpv`.  `rmpv` cannot hold a
/// string with invalid UTF-8 that it did not decode itself, and writes
/// such a string as binary data (`write_bin`), so `InvalidString` becomes
/// `Binary` with the same bytes.  Nothing is stated of it: what is written is stated through
/// `msgpack_encoding`.
#[verifier::external_body]
fn value_to_rmpv(v: &RpcValue) -> rmpv::Value {
    match v {
        RpcValue::Nil => rmpv::Value::Nil,
        RpcValue::Boolean(b) => rmpv::Value::Boolean(*b),
        RpcValue::PosInt(n) => rmpv::Value::from(*n),
        RpcValue::NegInt(n) => rmpv::Value::from(*n),
        RpcValue::F32(b) => float_to_rmpv(0xca, &b.to_be_bytes()),
        RpcValue::F64(b) => float_to_rmpv(0xcb, &b.to_be_bytes()),
        RpcValue::String(s) => rmpv::Value::from(s.as_str()),
        RpcValue::InvalidString(b) | RpcValue::Binary(b) => rmpv::Value::Binary(b.clone()),
        RpcValue::Array(a) => array_to_rmpv(a),
        RpcValue::Dict(m) => map_to_rmpv(m),
        RpcValue::Ext(t, b) => rmpv::Value::Ext(*t, b.clone()),
    }
}

/// A float as an `rmpv::Value`, read by `rmpv::decode::read_value` from
/// its MessagePack form: the marker byte (`0xca` for 32 bits, `0xcb` for
/// 64) and then the bit pattern, big-endian.
#[verifier::external_body]
fn float_to_rmpv(marker: u8, bits: &[u8]) -> rmpv::Value {
    let mut form = vec![marker];
    form.extend_from_slice(bits);
    rmpv::decode::read_value(&mut &form[..]).unwrap_or(rmpv::Value::Nil)
}

/// The items of a library array as an `rmpv` array, in order.
#[verifier::external_body]
fn array_to_rmpv(a: &Vec<RpcValue>) -> rmpv::Value {
    rmpv::Value::Array(a.iter().map(value_to_rmpv).collect())
}

/// The entries of a library map as an `rmpv` map, in order.
#[verifier::external_body]
fn map_to_rmpv(m: &Vec<(RpcValue, RpcValue)>) -> rmpv::Value {
    rmpv::Value::Map(m.iter().map(|(k, v)| (value_to_rmpv(k), value_to_rmpv(v))).collect())
}

/// `rmpv::decode::read_value` on the front of `bytes`: the value read and
/// how many bytes are left after it, or `None` where it fails (the value is
/// incomplete, malformed or nested too deeply).  A value takes at least its
/// marker byte.
#[verifier::external_body]
fn decode_one(bytes: &[u8]) -> (res: Option<(RpcValue, usize)>)
    ensures
        match res {
            Some((v, left)) => left < bytes@.len() && msgpack_value_at(bytes@) == Some(
                (v@, (bytes@.len() - left) as nat),
            ),
            None => msgpack_value_at(bytes@) is None,
        },
{
    let mut rest: &[u8] = bytes;
    match rmpv::decode::read_value(&mut rest) {
        Ok(v) => Some((value_from_rmpv(v), rest.len())),
        Err(_) => None,
    }
}

/// `rmpv::encode::write_value` into a byte vector: it appends the value's
/// MessagePack form, bytes that depend on the value alone.
#[verifier::external_body]
fn write_value(buf: &mut Vec<u8>, v: &RpcValue)
    ensures
        final(buf)@ == old(buf)@ + msgpack_encoding(v@),
{
    let _ = rmpv::encode::write_value(buf, &value_to_rmpv(v));
}

/// The complete values one after another at the front of `bytes`, and the
/// number of bytes they take.  Reading stops at the first place where no
/// complete value starts.
pub open spec fn decoded_prefix(bytes: Seq<u8>) -> (Seq<ValueView>, nat)
    decreases bytes.len(),
{
    match msgpack_value_at(bytes) {
        Some((v, n)) => if 0 < n <= bytes.len() {
            let rest = decoded_prefix(bytes.subrange(n as int, bytes.len() as int));
            (seq![v] + rest.0, n + rest.1)
        } else {
            (Seq::empty(), 0)
        },
        None => (Seq::empty(), 0),
    }
}

/// The bytes that carry `values`, one after another.
pub open spec fn encoded_values(values: Seq<ValueView>) -> Seq<u8>
    decreases values.len(),
{
    if values.len() == 0 {
        Seq::empty()
    } else {
        encoded_values(values.drop_last()) + msgpack_encoding(values.last())
    }
}

/// Decodes the complete values at the front of `buf`: returns them and the
/// number of bytes they take.  The bytes after them (an incomplete value)
/// are left for the next read.
pub fn decode_complete(buf: &[u8]) -> (res: (Vec<RpcValue>, usize))
    ensures
        values_view(res.0@) == decoded_prefix(buf@).0,
        res.1 == decoded_prefix(buf@).1,
        res.1 <= buf@.len(),
{
    let mut values: Vec<RpcValue> = Vec::new();
    let mut pos: usize = 0;
    assert(buf@.subrange(0, buf@.len() as int) =~= buf@);
    assert(values_view(values@) + decoded_prefix(buf@).0 =~= decoded_prefix(buf@).0);
    loop
        invariant
            pos <= buf@.len(),
            values_view(values@) + decoded_prefix(buf@.subrange(pos as int, buf@.len() as int)).0
                == decoded_prefix(buf@).0,
            pos + decoded_prefix(buf@.subrange(pos as int, buf@.len() as int)).1
                == decoded_prefix(buf@).1,
        ensures
            values_view(values@) == decoded_prefix(buf@).0,
            pos == decoded_prefix(buf@).1,
            pos <= buf@.len(),
        decreases buf@.len() - pos,
    {
        let rest = slice_subrange(buf, pos, buf.len());
        let ghost tail = rest@;
        match decode_one(rest) {
            Some((v, left)) => {
                let used = rest.len() - left;
                proof {
                    let after = tail.subrange(used as int, tail.len() as int);
                    assert(after =~= buf@.subrange(pos + used, buf@.len() as int));
                    let old_vals = values_view(values@);
                    let later = decoded_prefix(after).0;
                    assert(values_view(values@.push(v)) =~= old_vals.push(v@));
                    assert(old_vals + (seq![v@] + later) =~= old_vals.push(v@) + later);
                }
                values.push(v);
                pos = pos + used;
            },
            None => {
                assert(values_view(values@) + Seq::<ValueView>::empty() =~= values_view(values@));
                break;
            },
        }
    }
    (values, pos)
}

/// The bytes that carry `values` to Neovim, one after another, for one
/// write on its standard input.
pub fn encode_values(values: &Vec<RpcValue>) -> (buf: Vec<u8>)
    ensures
        buf@ == encoded_values(values_view(values@)),
{
    let mut buf: Vec<u8> = Vec::new();
    let mut i: usize = 0;
    while i < values.len()
        invariant
            i <= values@.len(),
            buf@ == encoded_values(values_view(values@.subrange(0, i as int))),
        decreases values@.len() - i,
    {
        proof {
            let now = values_view(values@.subrange(0, i as int + 1));
            assert(now.drop_last() =~= values_view(values@.subrange(0, i as int)));
            assert(now.last() == values@[i as int]@);
        }
        write_value(&mut buf, &values[i]);
        i = i + 1;
    }
    assert(values@.subrange(0, values@.len() as int) =~= values@);
    buf
}

} // verus!
