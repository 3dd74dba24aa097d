use zenvi::actions::AppAction;
use zenvi::commands::{edit_command, open_commands, open_dir, read_session_check, session_commands};
use zenvi::protocol::RpcMessage;
use zenvi::session::{
    apply_redraw_batch, attach_ui_message, command_message, discard_consumed, exec_lua_params,
    handle_message, input_message, is_safe_redraw_batch, mouse_message, mouse_params, nvim_args,
    paste_message, request_message, response_outcome, search_path, try_resize_message,
    working_dir, Inbound, NvimEvent,
};
use zenvi::state::NvimState;
use zenvi::value::RpcValue;

fn s(text: &str) -> RpcValue {
    RpcValue::from_str(text)
}

fn u(n: u64) -> RpcValue {
    RpcValue::from_u64(n)
}

fn notification(method: &str, params: Vec<RpcValue>) -> RpcMessage {
    RpcMessage::Notification { method: method.to_string(), params }
}

#[test]
fn redraw_batch_counts_flushes_and_applies_events() {
    let mut state = NvimState::default();
    let events = vec![
        RpcValue::Array(vec![s("set_title"), RpcValue::Array(vec![s("t1")])]),
        RpcValue::Array(vec![s("flush"), RpcValue::Array(vec![])]),
        s("not an event"),
        RpcValue::Array(vec![s("grid_resize"), RpcValue::Array(vec![u(1), u(10), u(5)])]),
        RpcValue::Array(vec![s("flush"), RpcValue::Array(vec![])]),
    ];
    assert!(is_safe_redraw_batch(&events));
    let frames = apply_redraw_batch(&mut state, &events);
    assert_eq!(frames, 2);
    assert_eq!(state.title, "t1");
    assert_eq!(state.grids.get(&1).unwrap().width, 10);
}

#[test]
fn unsafe_scroll_batches_are_detected() {
    let bad = vec![RpcValue::Array(vec![
        s("grid_scroll"),
        RpcValue::Array(vec![u(1), u(0), u(24), u(0), u(80), RpcValue::from_i64(i64::MIN), u(0)]),
    ])];
    assert!(!is_safe_redraw_batch(&bad));
    let good = vec![RpcValue::Array(vec![
        s("grid_scroll"),
        RpcValue::Array(vec![u(1), u(0), u(24), u(0), u(80), RpcValue::from_i64(-3), u(0)]),
    ])];
    assert!(is_safe_redraw_batch(&good));
}

#[test]
fn prewarm_notifications_toggle_the_flag() {
    let mut state = NvimState::default();
    match handle_message(&mut state, notification("zenvi_prewarm_start", vec![])) {
        Inbound::Frames(n) => assert_eq!(n, 0),
        other => panic!("unexpected {:?}", other),
    }
    assert!(state.is_prewarming);
    match handle_message(&mut state, notification("zenvi_prewarm_end", vec![])) {
        Inbound::Frames(n) => assert_eq!(n, 1),
        other => panic!("unexpected {:?}", other),
    }
    assert!(!state.is_prewarming);
}

#[test]
fn responses_complete_requests() {
    let mut state = NvimState::default();
    let ok = RpcMessage::Response { msgid: 7, error: RpcValue::Nil, result: u(42) };
    match handle_message(&mut state, ok) {
        Inbound::Reply { msgid, outcome } => {
            assert_eq!(msgid, 7);
            assert_eq!(outcome, Ok(u(42)));
        }
        other => panic!("unexpected {:?}", other),
    }
    let err = RpcMessage::Response { msgid: 8, error: s("boom"), result: RpcValue::Nil };
    match handle_message(&mut state, err) {
        Inbound::Reply { msgid, outcome } => {
            assert_eq!(msgid, 8);
            assert_eq!(outcome, Err(s("boom")));
        }
        other => panic!("unexpected {:?}", other),
    }
    assert_eq!(response_outcome(RpcValue::Nil, u(1)), Ok(u(1)));
    assert_eq!(response_outcome(RpcValue::from_bool(false), u(1)), Err(RpcValue::from_bool(false)));
}

#[test]
fn requests_and_unknown_notifications_do_nothing() {
    let mut state = NvimState::default();
    let req = RpcMessage::Request { msgid: 1, method: "x".to_string(), params: vec![] };
    assert!(matches!(handle_message(&mut state, req), Inbound::Ignored));
    assert!(matches!(handle_message(&mut state, notification("other", vec![u(1)])), Inbound::Frames(0)));
    assert_eq!(state.title, "Zenvi");
}

#[test]
fn redraw_notification_through_handle_message() {
    let mut state = NvimState::default();
    let params = vec![
        RpcValue::Array(vec![s("mode_change"), RpcValue::Array(vec![s("insert"), u(1)])]),
        RpcValue::Array(vec![s("flush"), RpcValue::Array(vec![])]),
    ];
    match handle_message(&mut state, notification("redraw", params)) {
        Inbound::Frames(n) => assert_eq!(n, 1),
        other => panic!("unexpected {:?}", other),
    }
    assert_eq!(state.current_mode, "insert");
}

#[test]
fn outgoing_messages_have_the_wire_layout() {
    let attach = attach_ui_message(3, 100, 35);
    assert_eq!(
        attach,
        RpcValue::Array(vec![
            u(0),
            u(3),
            s("nvim_ui_attach"),
            RpcValue::Array(vec![
                u(100),
                u(35),
                RpcValue::Dict(vec![(s("ext_linegrid"), RpcValue::from_bool(true)), (s("rgb"), RpcValue::from_bool(true))]),
            ]),
        ])
    );
    assert_eq!(input_message("<Esc>"), RpcValue::Array(vec![u(2), s("nvim_input"), RpcValue::Array(vec![s("<Esc>")])]));
    assert_eq!(
        command_message("set title"),
        RpcValue::Array(vec![u(2), s("nvim_command"), RpcValue::Array(vec![s("set title")])])
    );
    assert_eq!(
        paste_message("hi"),
        RpcValue::Array(vec![
            u(2),
            s("nvim_paste"),
            RpcValue::Array(vec![s("hi"), RpcValue::from_bool(false), RpcValue::from_i64(-1)])
        ])
    );
    assert_eq!(
        try_resize_message(120, 40),
        RpcValue::Array(vec![u(2), s("nvim_ui_try_resize"), RpcValue::Array(vec![u(120), u(40)])])
    );
    assert_eq!(
        mouse_message("left", "press", "C", 0, 4, 9),
        RpcValue::Array(vec![
            u(2),
            s("nvim_input_mouse"),
            RpcValue::Array(vec![s("left"), s("press"), s("C"), u(0), u(4), u(9)])
        ])
    );
    assert_eq!(mouse_params("wheel", "up", "", 0, 1, 2).len(), 6);
    assert_eq!(
        request_message(9, "nvim_exec_lua", exec_lua_params("return 1", vec![u(5)])),
        RpcValue::Array(vec![
            u(0),
            u(9),
            s("nvim_exec_lua"),
            RpcValue::Array(vec![s("return 1"), RpcValue::Array(vec![u(5)])])
        ])
    );
}

#[test]
fn nvim_command_line() {
    let targets = vec!["/tmp/a.rs".to_string()];
    let a = nvim_args(true, "print(1)", &targets);
    assert_eq!(a[0], "--embed");
    assert_eq!(a[1], "--clean");
    assert_eq!(a[2], "--cmd");
    assert_eq!(
        a[3],
        "let g:zenvi = v:true | let g:gui_running = 1 | set title | set ttimeout ttimeoutlen=10"
    );
    assert_eq!(a[4], "--cmd");
    assert_eq!(a[5], "lua print(1)");
    assert_eq!(a[6], "/tmp/a.rs");
    assert_eq!(a.len(), 7);
    assert_eq!(nvim_args(false, "", &vec![]).len(), 5);
}

#[test]
fn search_path_order() {
    assert_eq!(
        search_path(Some("/home/u"), "/usr/bin:/bin"),
        "/home/u/.local/bin:/home/u/.cargo/bin:/opt/homebrew/bin:/opt/homebrew/sbin:/usr/local/bin:/usr/bin:/bin:/usr/sbin:/sbin:/usr/bin:/bin"
    );
    assert_eq!(
        search_path(None, ""),
        "/opt/homebrew/bin:/opt/homebrew/sbin:/usr/local/bin:/usr/bin:/bin:/usr/sbin:/sbin:"
    );
}

#[test]
fn working_directory_choice() {
    let safe = Some("/safe".to_string());
    assert_eq!(working_dir(Some("/w".to_string()), true, safe.clone()), Some("/w".to_string()));
    assert_eq!(working_dir(Some("/w".to_string()), false, safe.clone()), safe.clone());
    assert_eq!(working_dir(None, false, None), None);
}

#[test]
fn read_buffer_drops_what_was_decoded() {
    let mut b = vec![1u8, 2, 3, 4];
    discard_consumed(&mut b, 0);
    assert_eq!(b, vec![1, 2, 3, 4]);
    discard_consumed(&mut b, 3);
    assert_eq!(b, vec![4]);
    discard_consumed(&mut b, 5);
    assert!(b.is_empty());
}

#[test]
fn session_events_compare() {
    assert_eq!(NvimEvent::Redraw, NvimEvent::Redraw);
    assert_ne!(NvimEvent::Redraw, NvimEvent::Exit);
}

#[test]
fn session_start_and_reload_commands() {
    let fresh = session_commands(Some("Menlo"), Some("/w"));
    assert_eq!(fresh.len(), 4);
    assert_eq!(fresh[0], "set mouse=a");
    assert_eq!(fresh[1], "set title");
    assert!(fresh[2].starts_with("lua (function()"));
    assert!(fresh[2].contains("vim.o.guifont = \"Menlo:h14\""));
    assert_eq!(fresh[3], "cd /w");
    let reload = session_commands(None, None);
    assert_eq!(reload, vec!["set mouse=a".to_string(), "set title".to_string()]);
}

#[test]
fn opening_files_and_folders() {
    assert_eq!(open_commands("/p/f.rs", Some("/p")), vec!["cd /p".to_string(), "edit /p/f.rs".to_string()]);
    assert_eq!(open_commands("f.rs", None), vec!["edit f.rs".to_string()]);
    assert_eq!(open_dir("/p", true, Some("/"), true), Some("/p".to_string()));
    assert_eq!(open_dir("/p/f.rs", false, Some("/p"), true), Some("/p".to_string()));
    assert_eq!(open_dir("f.rs", false, Some(""), true), None);
    assert_eq!(open_dir("/q/f.rs", false, Some("/q"), false), None);
}

#[test]
fn session_check_reply() {
    let reply = RpcValue::Dict(vec![
        (s("should_restore"), RpcValue::from_bool(true)),
        (s("cwd"), s("/proj")),
    ]);
    assert_eq!(read_session_check(&reply, Some("/old".to_string())), (true, Some("/proj".to_string())));
    let empty_cwd = RpcValue::Dict(vec![(s("cwd"), s("")), (s("should_restore"), u(1))]);
    assert_eq!(read_session_check(&empty_cwd, Some("/old".to_string())), (false, Some("/old".to_string())));
    assert_eq!(read_session_check(&u(3), None), (false, None));
}

#[test]
fn editing_commands() {
    let copy = edit_command(AppAction::Copy).unwrap();
    assert!(copy.starts_with("lua (function()"));
    assert!(copy.contains("normal! \"+y"));
    assert!(edit_command(AppAction::Undo).unwrap().contains("pcall(vim.cmd, 'undo')"));
    assert!(edit_command(AppAction::SelectAll).unwrap().contains("normal! ggVG"));
    assert_eq!(edit_command(AppAction::Quit), None);
}
