use zenvi::msgpack::{decode_complete, encode_values};
use zenvi::protocol::RpcMessage;
use zenvi::session::read_messages;
use zenvi::value::RpcValue;

#[test]
fn decodes_a_complete_array() {
    let (values, used) = decode_complete(&[0x93, 0x01, 0x02, 0x03]);
    assert_eq!(used, 4);
    assert_eq!(
        values,
        vec![RpcValue::Array(vec![RpcValue::PosInt(1), RpcValue::PosInt(2), RpcValue::PosInt(3)])]
    );
}

#[test]
fn an_incomplete_value_waits_for_more_bytes() {
    let (values, used) = decode_complete(&[0x93, 0x01, 0x02]);
    assert_eq!(used, 0);
    assert!(values.is_empty());
    let (values, used) = decode_complete(&[0xc0, 0xc3, 0x92, 0x01]);
    assert_eq!(used, 2);
    assert_eq!(values, vec![RpcValue::Nil, RpcValue::Boolean(true)]);
    let (values, used) = decode_complete(&[]);
    assert_eq!(used, 0);
    assert!(values.is_empty());
}

#[test]
fn decodes_strings_integers_maps_and_floats() {
    let bytes = [
        0xa2, b'h', b'i', // "hi"
        0xff, // -1
        0x81, 0xa1, b'k', 0x05, // {"k": 5}
        0xca, 0x3f, 0x80, 0x00, 0x00, // 1.0f32
        0xa1, 0xff, // a string whose byte is not UTF-8
    ];
    let (values, used) = decode_complete(&bytes);
    assert_eq!(used, bytes.len());
    assert_eq!(
        values,
        vec![
            RpcValue::String("hi".to_string()),
            RpcValue::NegInt(-1),
            RpcValue::Dict(vec![(RpcValue::String("k".to_string()), RpcValue::PosInt(5))]),
            RpcValue::F32(1.0f32.to_bits()),
            RpcValue::InvalidString(vec![0xff]),
        ]
    );
}

#[test]
fn encodes_values_one_after_another() {
    let values = vec![
        RpcValue::Array(vec![RpcValue::PosInt(2), RpcValue::String("nvim_input".to_string())]),
        RpcValue::NegInt(-1),
        RpcValue::Nil,
    ];
    let bytes = encode_values(&values);
    let mut expected = vec![0x92, 0x02, 0xaa];
    expected.extend_from_slice(b"nvim_input");
    expected.extend_from_slice(&[0xff, 0xc0]);
    assert_eq!(bytes, expected);
    assert!(encode_values(&vec![]).is_empty());
}

#[test]
fn an_invalid_string_is_sent_as_binary_with_its_bytes() {
    let bytes = encode_values(&vec![RpcValue::InvalidString(vec![0xff, 0x41])]);
    assert_eq!(bytes, vec![0xc4, 0x02, 0xff, 0x41]);
}

#[test]
fn what_is_encoded_decodes_back() {
    let values = vec![
        RpcValue::Array(vec![
            RpcValue::PosInt(0),
            RpcValue::PosInt(7),
            RpcValue::String("redraw".to_string()),
            RpcValue::Array(vec![RpcValue::Boolean(false), RpcValue::NegInt(-300)]),
        ]),
        RpcValue::F64(2.5f64.to_bits()),
        RpcValue::F32((-0.5f32).to_bits()),
        RpcValue::Binary(vec![1, 2, 3]),
        RpcValue::Ext(3, vec![9, 9]),
        RpcValue::Dict(vec![(RpcValue::PosInt(u64::MAX), RpcValue::NegInt(i64::MIN))]),
    ];
    let bytes = encode_values(&values);
    let (back, used) = decode_complete(&bytes);
    assert_eq!(used, bytes.len());
    assert_eq!(back, values);
}

#[test]
fn messages_are_read_from_the_bytes_and_other_values_skipped() {
    let values = vec![
        RpcValue::Array(vec![
            RpcValue::PosInt(2),
            RpcValue::String("redraw".to_string()),
            RpcValue::Array(vec![]),
        ]),
        RpcValue::PosInt(42),
        RpcValue::Array(vec![RpcValue::PosInt(1), RpcValue::PosInt(7), RpcValue::Nil, RpcValue::Boolean(true)]),
    ];
    let mut bytes = encode_values(&values);
    let whole = bytes.len();
    bytes.extend_from_slice(&[0x94, 0x00]);
    let (msgs, used) = read_messages(&bytes);
    assert_eq!(used, whole);
    assert_eq!(msgs.len(), 2);
    match &msgs[0] {
        RpcMessage::Notification { method, params } => {
            assert_eq!(method, "redraw");
            assert!(params.is_empty());
        }
        other => panic!("unexpected {:?}", other),
    }
    match &msgs[1] {
        RpcMessage::Response { msgid, error, result } => {
            assert_eq!(*msgid, 7);
            assert_eq!(*error, RpcValue::Nil);
            assert_eq!(*result, RpcValue::Boolean(true));
        }
        other => panic!("unexpected {:?}", other),
    }
}
