use zenvi::protocol::RpcMessage;
use zenvi::value::RpcValue;

fn s(text: &str) -> RpcValue {
    RpcValue::from_str(text)
}

fn n(v: i64) -> RpcValue {
    RpcValue::from_i64(v)
}

#[test]
fn test_parse_request() {
    let val = RpcValue::Array(vec![
        n(0),
        RpcValue::from_u64(42),
        s("nvim_command"),
        RpcValue::Array(vec![s("echo 'hello'")]),
    ]);

    let msg = RpcMessage::parse(val).expect("Failed to parse request");
    match msg {
        RpcMessage::Request { msgid, method, params } => {
            assert_eq!(msgid, 42);
            assert_eq!(method, "nvim_command");
            assert_eq!(params.len(), 1);
            assert_eq!(params[0].as_str(), Some("echo 'hello'"));
        }
        _ => panic!("Expected Request message"),
    }
}

#[test]
fn test_parse_response_success() {
    let val = RpcValue::Array(vec![n(1), RpcValue::from_u64(100), RpcValue::Nil, s("response_data")]);

    let msg = RpcMessage::parse(val).expect("Failed to parse response");
    match msg {
        RpcMessage::Response { msgid, error, result } => {
            assert_eq!(msgid, 100);
            assert!(error.is_nil());
            assert_eq!(result.as_str(), Some("response_data"));
        }
        _ => panic!("Expected Response message"),
    }
}

#[test]
fn test_parse_response_error() {
    let val = RpcValue::Array(vec![
        n(1),
        RpcValue::from_u64(101),
        s("Syntax error in command"),
        RpcValue::Nil,
    ]);

    let msg = RpcMessage::parse(val).expect("Failed to parse error response");
    match msg {
        RpcMessage::Response { msgid, error, result } => {
            assert_eq!(msgid, 101);
            assert_eq!(error.as_str(), Some("Syntax error in command"));
            assert!(result.is_nil());
        }
        _ => panic!("Expected Response message with error"),
    }
}

#[test]
fn test_parse_notification() {
    let val = RpcValue::Array(vec![
        n(2),
        s("redraw"),
        RpcValue::Array(vec![RpcValue::Array(vec![s("grid_clear"), RpcValue::Array(vec![n(1)])])]),
    ]);

    let msg = RpcMessage::parse(val).expect("Failed to parse notification");
    match msg {
        RpcMessage::Notification { method, params } => {
            assert_eq!(method, "redraw");
            assert_eq!(params.len(), 1);
        }
        _ => panic!("Expected Notification message"),
    }
}

#[test]
fn test_parse_invalid_messages() {
    assert!(RpcMessage::parse(s("not an array")).is_none());
    assert!(RpcMessage::parse(n(123)).is_none());

    assert!(RpcMessage::parse(RpcValue::Array(vec![])).is_none());

    assert!(RpcMessage::parse(RpcValue::Array(vec![n(99), n(1)])).is_none());

    assert!(RpcMessage::parse(RpcValue::Array(vec![n(0), n(1), s("test")])).is_none());

    assert!(RpcMessage::parse(RpcValue::Array(vec![n(1), n(1), RpcValue::Nil])).is_none());

    assert!(RpcMessage::parse(RpcValue::Array(vec![n(2), s("test")])).is_none());
}

#[test]
fn test_to_value_roundtrip() {
    let req = RpcMessage::Request {
        msgid: 5,
        method: "nvim_input".to_string(),
        params: vec![s("<Esc>")],
    };
    let req_val = req.to_value();
    let parsed_req = RpcMessage::parse(req_val).expect("Roundtrip request failed");
    match parsed_req {
        RpcMessage::Request { msgid, method, params } => {
            assert_eq!(msgid, 5);
            assert_eq!(method, "nvim_input");
            assert_eq!(params, vec![s("<Esc>")]);
        }
        _ => panic!("Expected Request"),
    }

    let resp = RpcMessage::Response { msgid: 10, error: RpcValue::Nil, result: RpcValue::from_bool(true) };
    let resp_val = resp.to_value();
    let parsed_resp = RpcMessage::parse(resp_val).expect("Roundtrip response failed");
    match parsed_resp {
        RpcMessage::Response { msgid, error, result } => {
            assert_eq!(msgid, 10);
            assert!(error.is_nil());
            assert_eq!(result, RpcValue::from_bool(true));
        }
        _ => panic!("Expected Response"),
    }

    let notif = RpcMessage::Notification { method: "redraw".to_string(), params: vec![n(1), n(2)] };
    let notif_val = notif.to_value();
    let parsed_notif = RpcMessage::parse(notif_val).expect("Roundtrip notification failed");
    match parsed_notif {
        RpcMessage::Notification { method, params } => {
            assert_eq!(method, "redraw");
            assert_eq!(params, vec![n(1), n(2)]);
        }
        _ => panic!("Expected Notification"),
    }
}

#[test]
fn message_ids_are_cut_to_32_bits() {
    let val = RpcValue::Array(vec![n(1), RpcValue::from_u64((1u64 << 32) + 7), RpcValue::Nil, RpcValue::Nil]);
    match RpcMessage::parse(val) {
        Some(RpcMessage::Response { msgid, .. }) => assert_eq!(msgid, 7),
        _ => panic!("Expected Response"),
    }
}

#[test]
fn encoded_request_has_the_wire_layout() {
    let req = RpcMessage::Request { msgid: 3, method: "m".to_string(), params: vec![] };
    let v = req.into_value();
    assert_eq!(v, RpcValue::Array(vec![n(0), n(3), s("m"), RpcValue::Array(vec![])]));
}

#[test]
fn extra_items_are_ignored() {
    let val = RpcValue::Array(vec![n(2), s("x"), RpcValue::Array(vec![]), s("extra")]);
    match RpcMessage::parse(val) {
        Some(RpcMessage::Notification { method, params }) => {
            assert_eq!(method, "x");
            assert!(params.is_empty());
        }
        _ => panic!("Expected Notification"),
    }
}
