//! MessagePack-RPC messages: requests, responses and notifications, as
//! Neovim exchanges them over its standard input and output.
use crate::value::{copy_values, int_view, values_view, RpcValue, ValueView};
use vstd::prelude::*;

verus! {

/// The abstract content of an RPC message.
pub enum RpcView {
    Request { msgid: u32, method: Seq<char>, params: Seq<ValueView> },
    Response { msgid: u32, error: ValueView, result: ValueView },
    Notification { method: Seq<char>, params: Seq<ValueView> },
}

/// An RPC message.
#[derive(Debug)]
pub enum RpcMessage {
    Request { msgid: u32, method: String, params: Vec<RpcValue> },
    Response { msgid: u32, error: RpcValue, result: RpcValue },
    Notification { method: String, params: Vec<RpcValue> },
}

impl View for RpcMessage {
    type V = RpcView;

    open spec fn view(&self) -> RpcView {
        match *self {
            RpcMessage::Request { msgid, method, params } => RpcView::Request {
                msgid,
                method: method@,
                params: values_view(params@),
            },
            RpcMessage::Response { msgid, error, result } => RpcView::Response {
                msgid,
                error: error@,
                result: result@,
            },
            RpcMessage::Notification { method, params } => RpcView::Notification {
                method: method@,
                params: values_view(params@),
            },
        }
    }
}

/// The message that the value `v` encodes, if it encodes one: an array whose
/// first item is the message type (0 request, 1 response, 2 notification)
/// followed by the fields of that type; a message id is truncated to 32 bits
/// and items past the fields are ignored.
pub open spec fn parse_message(v: ValueView) -> Option<RpcView> {
    match v.to_array() {
        None => None,
        Some(arr) => if arr.len() == 0 {
            None
        } else {
            match arr[0].to_u64() {
                None => None,
                Some(kind) => if kind == 0 {
                    if arr.len() < 4 {
                        None
                    } else {
                        match (arr[1].to_u64(), arr[2].to_str(), arr[3].to_array()) {
                            (Some(id), Some(method), Some(params)) => Some(
                                RpcView::Request { msgid: id as u32, method, params },
                            ),
                            _ => None,
                        }
                    }
                } else if kind == 1 {
                    if arr.len() < 4 {
                        None
                    } else {
                        match arr[1].to_u64() {
                            Some(id) => Some(
                                RpcView::Response { msgid: id as u32, error: arr[2], result: arr[3] },
                            ),
                            None => None,
                        }
                    }
                } else if kind == 2 {
                    if arr.len() < 3 {
                        None
                    } else {
                        match (arr[1].to_str(), arr[2].to_array()) {
                            (Some(method), Some(params)) => Some(
                                RpcView::Notification { method, params },
                            ),
                            _ => None,
                        }
                    }
                } else {
                    None
                },
            }
        },
    }
}

/// The value that encodes the message `m`.
pub open spec fn encode_message(m: RpcView) -> ValueView {
    match m {
        RpcView::Request { msgid, method, params } => ValueView::Array(
            seq![
                int_view(0),
                int_view(msgid as int),
                ValueView::String(method),
                ValueView::Array(params),
            ],
        ),
        RpcView::Response { msgid, error, result } => ValueView::Array(
            seq![int_view(1), int_view(msgid as int), error, result],
        ),
        RpcView::Notification { method, params } => ValueView::Array(
            seq![int_view(2), ValueView::String(method), ValueView::Array(params)],
        ),
    }
}

/// Decoding the encoding of a message gives the message back.
pub proof fn lemma_parse_encode_roundtrip(m: RpcView)
    ensures
        parse_message(encode_message(m)) == Some(m),
{
}

impl RpcMessage {
    /// The message that `val` encodes, or `None` when it encodes none.
    pub fn parse(val: RpcValue) -> (res: Option<Self>)
        ensures
            match res {
                Some(m) => parse_message(val@) == Some(m@),
                None => parse_message(val@) is None,
            },
    {
        let arr = match val.as_array() {
            Some(a) => a,
            None => return None,
        };
        if arr.len() == 0 {
            return None;
        }
        let kind = match arr[0].as_u64() {
            Some(k) => k,
            None => return None,
        };
        if kind == 0 {
            if arr.len() < 4 {
                return None;
            }
            let msgid = match arr[1].as_u64() {
                Some(id) => id as u32,
                None => return None,
            };
            let method = match arr[2].as_str() {
                Some(s) => String::from_str(s),
                None => return None,
            };
            let params = match arr[3].as_array() {
                Some(p) => copy_values(p),
                None => return None,
            };
            Some(RpcMessage::Request { msgid, method, params })
        } else if kind == 1 {
            if arr.len() < 4 {
                return None;
            }
            let msgid = match arr[1].as_u64() {
                Some(id) => id as u32,
                None => return None,
            };
            let error = arr[2].duplicate();
            let result = arr[3].duplicate();
            Some(RpcMessage::Response { msgid, error, result })
        } else if kind == 2 {
            if arr.len() < 3 {
                return None;
            }
            let method = match arr[1].as_str() {
                Some(s) => String::from_str(s),
                None => return None,
            };
            let params = match arr[2].as_array() {
                Some(p) => copy_values(p),
                None => return None,
            };
            Some(RpcMessage::Notification { method, params })
        } else {
            None
        }
    }

    /// The value that encodes the message.
    pub fn to_value(&self) -> (res: RpcValue)
        ensures
            res@ == encode_message(self@),
    {
        match self {
            RpcMessage::Request { msgid, method, params } => {
                let mut items: Vec<RpcValue> = Vec::new();
                items.push(RpcValue::from_u64(0));
                items.push(RpcValue::from_u64(*msgid as u64));
                items.push(RpcValue::from_string(method.clone()));
                items.push(RpcValue::from_array(copy_values(params)));
                let res = RpcValue::from_array(items);
                assert(values_view(items@) =~= seq![
                    int_view(0),
                    int_view(*msgid as int),
                    ValueView::String(method@),
                    ValueView::Array(values_view(params@)),
                ]);
                res
            },
            RpcMessage::Response { msgid, error, result } => {
                let mut items: Vec<RpcValue> = Vec::new();
                items.push(RpcValue::from_u64(1));
                items.push(RpcValue::from_u64(*msgid as u64));
                items.push(error.duplicate());
                items.push(result.duplicate());
                let res = RpcValue::from_array(items);
                assert(values_view(items@) =~= seq![
                    int_view(1),
                    int_view(*msgid as int),
                    error@,
                    result@,
                ]);
                res
            },
            RpcMessage::Notification { method, params } => {
                let mut items: Vec<RpcValue> = Vec::new();
                items.push(RpcValue::from_u64(2));
                items.push(RpcValue::from_string(method.clone()));
                items.push(RpcValue::from_array(copy_values(params)));
                let res = RpcValue::from_array(items);
                assert(values_view(items@) =~= seq![
                    int_view(2),
                    ValueView::String(method@),
                    ValueView::Array(values_view(params@)),
                ]);
                res
            },
        }
    }

    /// The value that encodes the message, consuming it.
    pub fn into_value(self) -> (res: RpcValue)
        ensures
            res@ == encode_message(self@),
    {
        self.to_value()
    }
}

} // verus!
