//! The decisions of a Neovim session: what a message from Neovim does to the
//! editor state and what the window should do next, and the messages that
//! the front end sends to Neovim.  Running the process and moving bytes
//! over its pipes is left to the caller.
use crate::events::{
    handle_redraw_event, is_safe_redraw_event, lemma_safe_event_ok, redraw_event_safe,
    redraw_flushes, redraw_ok, redraw_state,
};
use crate::msgpack::{decode_complete, decoded_prefix};
use crate::protocol::{encode_message, parse_message, RpcMessage, RpcView};
use crate::state::{NvimState, NvimStateView};
use crate::font::strings_view;
use crate::text::{join_strings, joined, str_eq};
use crate::value::{values_view, RpcValue, ValueView};
use vstd::prelude::*;

verus! {

/// What the session reports to the window.
#[derive(Debug, Clone, Copy, PartialEq, Eq, Structural)]
pub enum NvimEvent {
    /// The state changed in a way that should be drawn.
    Redraw,
    /// Neovim went away without being asked to.
    Exit,
}

/// The state after the events of a `redraw` notification, applied in order;
/// an item that is no array is skipped.
pub open spec fn batch_state(s: NvimStateView, events: Seq<ValueView>) -> NvimStateView
    decreases events.len(),
{
    if events.len() == 0 {
        s
    } else {
        let prev = batch_state(s, events.drop_last());
        match events.last().to_array() {
            Some(event) => redraw_state(prev, event),
            None => prev,
        }
    }
}

/// How many events of the batch complete a frame (see `redraw_flushes`).
pub open spec fn batch_flushes(events: Seq<ValueView>) -> nat
    decreases events.len(),
{
    if events.len() == 0 {
        0
    } else {
        batch_flushes(events.drop_last()) + match events.last().to_array() {
            Some(event) => if redraw_flushes(event) {
                1nat
            } else {
                0nat
            },
            None => 0nat,
        }
    }
}

/// Every event of the batch can be applied to the state that the events
/// before it leave.
pub open spec fn batch_ok(s: NvimStateView, events: Seq<ValueView>) -> bool {
    forall|i: int|
        0 <= i < events.len() ==> match (#[trigger] events[i]).to_array() {
            Some(event) => redraw_ok(batch_state(s, events.take(i)), event),
            None => true,
        }
}

/// Every event of the batch is safe on its own (see `redraw_event_safe`).
pub open spec fn batch_safe(events: Seq<ValueView>) -> bool {
    forall|i: int|
        0 <= i < events.len() ==> match (#[trigger] events[i]).to_array() {
            Some(event) => redraw_event_safe(event),
            None => true,
        }
}

/// A batch of safe events can be applied to any state.
pub proof fn lemma_safe_batch_ok(s: NvimStateView, events: Seq<ValueView>)
    requires
        batch_safe(events),
    ensures
        batch_ok(s, events),
{
    assert forall|i: int| 0 <= i < events.len() implies match (#[trigger] events[i]).to_array() {
        Some(event) => redraw_ok(batch_state(s, events.take(i)), event),
        None => true,
    } by {
        if let Some(event) = events[i].to_array() {
            lemma_safe_event_ok(batch_state(s, events.take(i)), event);
        }
    }
}

/// Applies the events of a `redraw` notification in order and returns how
/// many of them complete a frame, that is, how many times the window is to
/// be told to draw.
pub fn apply_redraw_batch(state: &mut NvimState, events: &Vec<RpcValue>) -> (frames: usize)
    requires
        old(state)@.wf(),
        batch_ok(old(state)@, values_view(events@)),
    ensures
        final(state)@ == batch_state(old(state)@, values_view(events@)),
        frames == batch_flushes(values_view(events@)),
        final(state)@.wf(),
{
    let ghost evs = values_view(events@);
    let mut frames: usize = 0;
    let mut i: usize = 0;
    while i < events.len()
        invariant
            i <= events@.len(),
            evs == values_view(events@),
            batch_ok(old(state)@, evs),
            state@.wf(),
            state@ == batch_state(old(state)@, evs.take(i as int)),
            frames == batch_flushes(evs.take(i as int)),
            frames <= i,
        decreases events@.len() - i,
    {
        proof {
            assert(evs.take(i + 1).drop_last() =~= evs.take(i as int));
            assert(evs.take(i + 1).last() == evs[i as int]);
            assert(evs[i as int] == events@[i as int]@);
        }
        match events[i].as_array() {
            Some(event) => {
                let flush = handle_redraw_event(state, event.as_slice());
                if flush {
                    frames = frames + 1;
                }
            },
            None => {},
        }
        i = i + 1;
    }
    proof {
        assert(evs.take(events@.len() as int) =~= evs);
    }
    frames
}

/// Whether every event of the batch is safe on its own, so that
/// `apply_redraw_batch` accepts it whatever the state.
pub fn is_safe_redraw_batch(events: &Vec<RpcValue>) -> (res: bool)
    ensures
        res == batch_safe(values_view(events@)),
        res ==> forall|s: NvimStateView| batch_ok(s, values_view(events@)),
{
    let ghost evs = values_view(events@);
    let mut i: usize = 0;
    while i < events.len()
        invariant
            i <= events@.len(),
            evs == values_view(events@),
            forall|j: int|
                0 <= j < i ==> match (#[trigger] evs[j]).to_array() {
                    Some(event) => redraw_event_safe(event),
                    None => true,
                },
        decreases events@.len() - i,
    {
        proof {
            assert(evs[i as int] == events@[i as int]@);
        }
        match events[i].as_array() {
            Some(event) => {
                if !is_safe_redraw_event(event.as_slice()) {
                    return false;
                }
            },
            None => {},
        }
        i = i + 1;
    }
    proof {
        assert forall|s: NvimStateView| batch_ok(s, evs) by {
            lemma_safe_batch_ok(s, evs);
        }
    }
    true
}

/// The abstract content of an `Inbound`.
pub enum InboundView {
    Frames(nat),
    Reply { msgid: u32, outcome: Result<ValueView, ValueView> },
    Ignored,
}

/// What the front end does after a message from Neovim.
#[derive(Debug)]
pub enum Inbound {
    /// Tell the window to draw this many times (none: nothing to draw).
    Frames(usize),
    /// Complete the pending request `msgid` with its result or its error.
    Reply { msgid: u32, outcome: Result<RpcValue, RpcValue> },
    /// Nothing to do (Neovim's own requests are not served).
    Ignored,
}

impl View for Inbound {
    type V = InboundView;

    open spec fn view(&self) -> InboundView {
        match *self {
            Inbound::Frames(n) => InboundView::Frames(n as nat),
            Inbound::Reply { msgid, outcome } => InboundView::Reply {
                msgid,
                outcome: match outcome {
                    Ok(v) => Ok(v@),
                    Err(e) => Err(e@),
                },
            },
            Inbound::Ignored => InboundView::Ignored,
        }
    }
}

/// A response's outcome: its result when its error is nil, else its error.
pub open spec fn response_outcome_of(error: ValueView, result: ValueView) -> Result<
    ValueView,
    ValueView,
> {
    if error == ValueView::Nil {
        Ok(result)
    } else {
        Err(error)
    }
}

/// A message that can be handled in the state `s`: the events of a
/// `redraw` notification can be applied in turn.
pub open spec fn message_ok(s: NvimStateView, m: RpcView) -> bool {
    match m {
        RpcView::Notification { method, params } => method == "redraw"@ ==> batch_ok(s, params),
        _ => true,
    }
}

/// The state after the message `m`: a `redraw` notification applies its
/// events, `zenvi_prewarm_start` and `zenvi_prewarm_end` turn pre-warming
/// on and off, and every other message leaves the state alone.
pub open spec fn state_after(s: NvimStateView, m: RpcView) -> NvimStateView {
    match m {
        RpcView::Notification { method, params } => if method == "redraw"@ {
            batch_state(s, params)
        } else if method == "zenvi_prewarm_start"@ {
            NvimStateView { is_prewarming: true, ..s }
        } else if method == "zenvi_prewarm_end"@ {
            NvimStateView { is_prewarming: false, ..s }
        } else {
            s
        },
        _ => s,
    }
}

/// What the front end does after the message `m`: draw once per completed
/// frame of a `redraw`, once after pre-warming ends, not at all after other
/// notifications; complete the request that a response answers; ignore
/// requests.
pub open spec fn inbound_for(m: RpcView) -> InboundView {
    match m {
        RpcView::Notification { method, params } => if method == "redraw"@ {
            InboundView::Frames(batch_flushes(params))
        } else if method == "zenvi_prewarm_end"@ {
            InboundView::Frames(1)
        } else {
            InboundView::Frames(0)
        },
        RpcView::Response { msgid, error, result } => InboundView::Reply {
            msgid,
            outcome: response_outcome_of(error, result),
        },
        RpcView::Request { .. } => InboundView::Ignored,
    }
}

/// The outcome of a response: `Ok(result)` when `error` is nil, else
/// `Err(error)`.
pub fn response_outcome(error: RpcValue, result: RpcValue) -> (res: Result<RpcValue, RpcValue>)
    ensures
        match res {
            Ok(v) => response_outcome_of(error@, result@) == Ok::<ValueView, ValueView>(v@),
            Err(e) => response_outcome_of(error@, result@) == Err::<ValueView, ValueView>(e@),
        },
{
    if error.is_nil() {
        Ok(result)
    } else {
        Err(error)
    }
}

/// Handles one message from Neovim: updates the state and says what the
/// front end does next.
pub fn handle_message(state: &mut NvimState, msg: RpcMessage) -> (res: Inbound)
    requires
        old(state)@.wf(),
        message_ok(old(state)@, msg@),
    ensures
        final(state)@ == state_after(old(state)@, msg@),
        res@ == inbound_for(msg@),
        final(state)@.wf(),
{
    match msg {
        RpcMessage::Notification { method, params } => {
            if str_eq(method.as_str(), "redraw") {
                let frames = apply_redraw_batch(state, &params);
                Inbound::Frames(frames)
            } else if str_eq(method.as_str(), "zenvi_prewarm_start") {
                proof {
                    reveal_strlit("zenvi_prewarm_start");
                    reveal_strlit("zenvi_prewarm_end");
                    assert("zenvi_prewarm_start"@.len() != "zenvi_prewarm_end"@.len());
                }
                state.is_prewarming = true;
                Inbound::Frames(0)
            } else if str_eq(method.as_str(), "zenvi_prewarm_end") {
                state.is_prewarming = false;
                Inbound::Frames(1)
            } else {
                Inbound::Frames(0)
            }
        },
        RpcMessage::Response { msgid, error, result } => {
            let outcome = response_outcome(error, result);
            Inbound::Reply { msgid, outcome }
        },
        RpcMessage::Request { .. } => Inbound::Ignored,
    }
}

/// A request with id `msgid` calling `method` with `params`.
pub fn request_message(msgid: u32, method: &str, params: Vec<RpcValue>) -> (res: RpcValue)
    ensures
        res@ == encode_message(
            RpcView::Request { msgid, method: method@, params: values_view(params@) },
        ),
{
    RpcMessage::Request { msgid, method: String::from_str(method), params }.into_value()
}

/// A notification calling `method` with `params`.
pub fn notification_message(method: &str, params: Vec<RpcValue>) -> (res: RpcValue)
    ensures
        res@ == encode_message(RpcView::Notification { method: method@, params: values_view(params@) }),
{
    RpcMessage::Notification { method: String::from_str(method), params }.into_value()
}

/// The options the front end attaches with: the line-based grid protocol
/// and 24-bit colours.
pub open spec fn attach_options() -> ValueView {
    ValueView::Dict(
        seq![
            (ValueView::String("ext_linegrid"@), ValueView::Boolean(true)),
            (ValueView::String("rgb"@), ValueView::Boolean(true)),
        ],
    )
}

/// The `nvim_ui_attach` request (id `msgid`) for a `width` x `height` grid.
pub fn attach_ui_message(msgid: u32, width: usize, height: usize) -> (res: RpcValue)
    ensures
        res@ == encode_message(
            RpcView::Request {
                msgid,
                method: "nvim_ui_attach"@,
                params: seq![
                    ValueView::PosInt(width as u64),
                    ValueView::PosInt(height as u64),
                    attach_options(),
                ],
            },
        ),
{
    let mut opts: Vec<(RpcValue, RpcValue)> = Vec::new();
    opts.push((RpcValue::from_str("ext_linegrid"), RpcValue::from_bool(true)));
    opts.push((RpcValue::from_str("rgb"), RpcValue::from_bool(true)));
    let ghost o = opts@;
    let options = RpcValue::from_map(opts);
    let mut params: Vec<RpcValue> = Vec::new();
    params.push(RpcValue::from_u64(width as u64));
    params.push(RpcValue::from_u64(height as u64));
    params.push(options);
    proof {
        assert(values_view(params@) =~= seq![
            ValueView::PosInt(width as u64),
            ValueView::PosInt(height as u64),
            attach_options(),
        ]) by {
            assert(crate::value::entries_view(o) =~= attach_options()->Dict_0);
        }
    }
    request_message(msgid, "nvim_ui_attach", params)
}

/// The `nvim_input` notification that types `input` (in Neovim's key
/// notation).
pub fn input_message(input: &str) -> (res: RpcValue)
    ensures
        res@ == encode_message(
            RpcView::Notification { method: "nvim_input"@, params: seq![ValueView::String(input@)] },
        ),
{
    let mut params: Vec<RpcValue> = Vec::new();
    params.push(RpcValue::from_str(input));
    proof {
        assert(values_view(params@) =~= seq![ValueView::String(input@)]);
    }
    notification_message("nvim_input", params)
}

/// The `nvim_command` notification that runs the Ex command `cmd`.
pub fn command_message(cmd: &str) -> (res: RpcValue)
    ensures
        res@ == encode_message(
            RpcView::Notification { method: "nvim_command"@, params: seq![ValueView::String(cmd@)] },
        ),
{
    let mut params: Vec<RpcValue> = Vec::new();
    params.push(RpcValue::from_str(cmd));
    proof {
        assert(values_view(params@) =~= seq![ValueView::String(cmd@)]);
    }
    notification_message("nvim_command", params)
}

/// The `nvim_paste` notification that pastes `data` in one piece (no
/// CRLF conversion, phase -1).
pub fn paste_message(data: &str) -> (res: RpcValue)
    ensures
        res@ == encode_message(
            RpcView::Notification {
                method: "nvim_paste"@,
                params: seq![
                    ValueView::String(data@),
                    ValueView::Boolean(false),
                    ValueView::NegInt(-1i64),
                ],
            },
        ),
{
    let mut params: Vec<RpcValue> = Vec::new();
    params.push(RpcValue::from_str(data));
    params.push(RpcValue::from_bool(false));
    params.push(RpcValue::from_i64(-1));
    proof {
        assert(values_view(params@) =~= seq![
            ValueView::String(data@),
            ValueView::Boolean(false),
            ValueView::NegInt(-1i64),
        ]);
    }
    notification_message("nvim_paste", params)
}

/// The arguments of `nvim_input_mouse`.
pub open spec fn mouse_args(
    button: Seq<char>,
    action: Seq<char>,
    modifier: Seq<char>,
    grid: u64,
    row: usize,
    col: usize,
) -> Seq<ValueView> {
    seq![
        ValueView::String(button),
        ValueView::String(action),
        ValueView::String(modifier),
        ValueView::PosInt(grid),
        ValueView::PosInt(row as u64),
        ValueView::PosInt(col as u64),
    ]
}

/// The arguments of `nvim_input_mouse` for `button` and `action` with the
/// modifier string `modifier` at `row`, `col` of `grid` (0: the grid under
/// the pointer).
pub fn mouse_params(
    button: &str,
    action: &str,
    modifier: &str,
    grid: u64,
    row: usize,
    col: usize,
) -> (res: Vec<RpcValue>)
    ensures
        values_view(res@) == mouse_args(button@, action@, modifier@, grid, row, col),
{
    let mut params: Vec<RpcValue> = Vec::new();
    params.push(RpcValue::from_str(button));
    params.push(RpcValue::from_str(action));
    params.push(RpcValue::from_str(modifier));
    params.push(RpcValue::from_u64(grid));
    params.push(RpcValue::from_u64(row as u64));
    params.push(RpcValue::from_u64(col as u64));
    proof {
        assert(values_view(params@) =~= mouse_args(button@, action@, modifier@, grid, row, col));
    }
    params
}

/// The `nvim_input_mouse` notification (see `mouse_params`).
pub fn mouse_message(
    button: &str,
    action: &str,
    modifier: &str,
    grid: u64,
    row: usize,
    col: usize,
) -> (res: RpcValue)
    ensures
        res@ == encode_message(
            RpcView::Notification {
                method: "nvim_input_mouse"@,
                params: mouse_args(button@, action@, modifier@, grid, row, col),
            },
        ),
{
    let params = mouse_params(button, action, modifier, grid, row, col);
    notification_message("nvim_input_mouse", params)
}

/// The `nvim_ui_try_resize` notification for a `width` x `height` grid.
pub fn try_resize_message(width: usize, height: usize) -> (res: RpcValue)
    ensures
        res@ == encode_message(
            RpcView::Notification {
                method: "nvim_ui_try_resize"@,
                params: seq![ValueView::PosInt(width as u64), ValueView::PosInt(height as u64)],
            },
        ),
{
    let mut params: Vec<RpcValue> = Vec::new();
    params.push(RpcValue::from_u64(width as u64));
    params.push(RpcValue::from_u64(height as u64));
    proof {
        assert(values_view(params@) =~= seq![
            ValueView::PosInt(width as u64),
            ValueView::PosInt(height as u64),
        ]);
    }
    notification_message("nvim_ui_try_resize", params)
}

/// The arguments of `nvim_exec_lua`: the code, then its arguments as one
/// array.
pub fn exec_lua_params(code: &str, args: Vec<RpcValue>) -> (res: Vec<RpcValue>)
    ensures
        values_view(res@) == seq![
            ValueView::String(code@),
            ValueView::Array(values_view(args@)),
        ],
{
    let ghost a = args@;
    let mut params: Vec<RpcValue> = Vec::new();
    params.push(RpcValue::from_str(code));
    params.push(RpcValue::from_array(args));
    proof {
        assert(values_view(params@) =~= seq![
            ValueView::String(code@),
            ValueView::Array(values_view(a)),
        ]);
    }
    params
}

/// The messages that `values` encode, in order; a value that encodes no
/// message is skipped.
pub open spec fn messages_of(values: Seq<ValueView>) -> Seq<RpcView>
    decreases values.len(),
{
    if values.len() == 0 {
        Seq::empty()
    } else {
        let before = messages_of(values.drop_last());
        match parse_message(values.last()) {
            Some(m) => before.push(m),
            None => before,
        }
    }
}

/// The abstract contents of a sequence of messages.
pub open spec fn messages_view(msgs: Seq<RpcMessage>) -> Seq<RpcView> {
    msgs.map_values(|m: RpcMessage| m@)
}

/// Reads the complete messages at the front of the bytes that Neovim has
/// sent: the values decoded there that are messages (any other value is
/// skipped), and the number of bytes read, to be discarded; an incomplete
/// value at the end waits for more bytes.
pub fn read_messages(buf: &[u8]) -> (res: (Vec<RpcMessage>, usize))
    ensures
        messages_view(res.0@) == messages_of(decoded_prefix(buf@).0),
        res.1 == decoded_prefix(buf@).1,
        res.1 <= buf@.len(),
{
    let (mut values, used) = decode_complete(buf);
    let ghost vals = values_view(values@);
    let mut msgs: Vec<RpcMessage> = Vec::new();
    let mut i: usize = 0;
    while i < values.len()
        invariant
            i <= values@.len(),
            values@.len() == vals.len(),
            forall|j: int| i <= j < values@.len() ==> (#[trigger] values@[j])@ == vals[j],
            messages_view(msgs@) == messages_of(vals.take(i as int)),
        decreases values@.len() - i,
    {
        let mut item = RpcValue::Nil;
        std::mem::swap(&mut item, &mut values[i]);
        proof {
            assert(vals.take(i + 1).drop_last() =~= vals.take(i as int));
            assert(vals.take(i + 1).last() == item@);
        }
        match RpcMessage::parse(item) {
            Some(m) => {
                let ghost before = msgs@;
                msgs.push(m);
                proof {
                    assert(messages_view(msgs@) =~= messages_view(before).push(m@));
                }
            },
            None => {},
        }
        i = i + 1;
    }
    proof {
        assert(vals.take(vals.len() as int) =~= vals);
    }
    (msgs, used)
}

/// Drops the first `consumed` bytes of the read buffer (all of them when it
/// holds fewer), after that many bytes were decoded.
pub fn discard_consumed(buffer: &mut Vec<u8>, consumed: usize)
    ensures
        final(buffer)@ == old(buffer)@.skip(
            if consumed < old(buffer)@.len() {
                consumed as int
            } else {
                old(buffer)@.len() as int
            },
        ),
{
    if consumed == 0 {
        proof {
            assert(old(buffer)@.skip(0) =~= old(buffer)@);
        }
        return;
    }
    if consumed >= buffer.len() {
        buffer.clear();
        proof {
            assert(old(buffer)@.skip(old(buffer)@.len() as int) =~= Seq::<u8>::empty());
        }
        return;
    }
    let mut rest: Vec<u8> = Vec::new();
    let mut i: usize = consumed;
    while i < buffer.len()
        invariant
            consumed <= i <= buffer@.len(),
            buffer@ == old(buffer)@,
            rest@ == old(buffer)@.subrange(consumed as int, i as int),
        decreases buffer@.len() - i,
    {
        rest.push(buffer[i]);
        i = i + 1;
        proof {
            assert(rest@ =~= old(buffer)@.subrange(consumed as int, i as int));
        }
    }
    *buffer = rest;
}

/// The Vimscript that runs before any configuration: it marks the editor
/// as driven by this GUI and shortens the key-code timeout.
pub open spec fn gui_marker_script() -> Seq<char> {
    "let g:zenvi = v:true | let g:gui_running = 1 | set title | set ttimeout ttimeoutlen=10"@
}

/// Neovim's command line: embedded mode, no configuration when `clean`, the
/// GUI marker and the start-up Lua (`init_lua`, run through `:lua`) before
/// any configuration, then the files to open.
pub open spec fn nvim_arg_list(clean: bool, init_lua: Seq<char>, targets: Seq<Seq<char>>) -> Seq<
    Seq<char>,
> {
    seq!["--embed"@] + (if clean {
        seq!["--clean"@]
    } else {
        Seq::empty()
    }) + seq!["--cmd"@, gui_marker_script(), "--cmd"@, "lua "@ + init_lua] + targets
}

/// The arguments Neovim is started with (see `nvim_arg_list`).
pub fn nvim_args(clean: bool, init_lua: &str, targets: &Vec<String>) -> (res: Vec<String>)
    ensures
        strings_view(res@) == nvim_arg_list(clean, init_lua@, strings_view(targets@)),
{
    let mut args: Vec<String> = Vec::new();
    args.push(String::from_str("--embed"));
    if clean {
        args.push(String::from_str("--clean"));
    }
    args.push(String::from_str("--cmd"));
    args.push(
        String::from_str(
            "let g:zenvi = v:true | let g:gui_running = 1 | set title | set ttimeout ttimeoutlen=10",
        ),
    );
    args.push(String::from_str("--cmd"));
    let lua = String::from_str("lua ").concat(init_lua);
    args.push(lua);
    let ghost head = args@;
    proof {
        assert(strings_view(head) =~= nvim_arg_list(clean, init_lua@, Seq::empty()));
    }
    let mut i: usize = 0;
    while i < targets.len()
        invariant
            i <= targets@.len(),
            args@ == head + targets@.take(i as int),
            strings_view(head) == nvim_arg_list(clean, init_lua@, Seq::empty()),
        decreases targets@.len() - i,
    {
        args.push(targets[i].clone());
        i = i + 1;
        proof {
            assert(args@ =~= head + targets@.take(i as int));
        }
    }
    proof {
        assert(targets@.take(targets@.len() as int) =~= targets@);
        assert(strings_view(args@) =~= nvim_arg_list(clean, init_lua@, strings_view(targets@)));
    }
    args
}

/// The directories searched for programs started from the editor, in
/// order: the user's own (under `home`, when it is known), the usual system
/// ones, then the inherited search path `current`.
pub open spec fn search_dirs(home: Option<Seq<char>>, current: Seq<char>) -> Seq<Seq<char>> {
    (match home {
        Some(h) => seq![h + "/.local/bin"@, h + "/.cargo/bin"@],
        None => Seq::empty(),
    }) + seq![
        "/opt/homebrew/bin"@,
        "/opt/homebrew/sbin"@,
        "/usr/local/bin"@,
        "/usr/bin"@,
        "/bin"@,
        "/usr/sbin"@,
        "/sbin"@,
        current,
    ]
}

/// The `PATH` Neovim runs with, so that a GUI launched outside a shell
/// still finds the user's tools: `search_dirs` joined with `:`.
pub fn search_path(home: Option<&str>, current: &str) -> (res: String)
    ensures
        res@ == joined(search_dirs(opt_str_view(home), current@), ":"@),
{
    let mut dirs: Vec<String> = Vec::new();
    match home {
        Some(h) => {
            dirs.push(String::from_str(h).concat("/.local/bin"));
            dirs.push(String::from_str(h).concat("/.cargo/bin"));
        },
        None => {},
    }
    dirs.push(String::from_str("/opt/homebrew/bin"));
    dirs.push(String::from_str("/opt/homebrew/sbin"));
    dirs.push(String::from_str("/usr/local/bin"));
    dirs.push(String::from_str("/usr/bin"));
    dirs.push(String::from_str("/bin"));
    dirs.push(String::from_str("/usr/sbin"));
    dirs.push(String::from_str("/sbin"));
    dirs.push(String::from_str(current));
    proof {
        assert(dirs@.map_values(|p: String| p@) =~= search_dirs(opt_str_view(home), current@));
    }
    join_strings(&dirs, ":")
}

/// The abstract content of an optional string slice.
pub open spec fn opt_str_view(o: Option<&str>) -> Option<Seq<char>> {
    match o {
        Some(s) => Some(s@),
        None => None,
    }
}

/// The directory Neovim starts in: the requested one when it exists, else
/// the safe default (when there is one).
pub fn working_dir(requested: Option<String>, requested_exists: bool, fallback: Option<String>) -> (res:
    Option<String>)
    ensures
        res == (match requested {
            Some(d) => if requested_exists {
                Some(d)
            } else {
                fallback
            },
            None => fallback,
        }),
{
    match requested {
        Some(d) => if requested_exists {
            Some(d)
        } else {
            fallback
        },
        None => fallback,
    }
}

} // verus!
