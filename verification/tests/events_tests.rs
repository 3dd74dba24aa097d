use zenvi::events::handle_redraw_event;
use zenvi::state::{Cell, NvimState};
use zenvi::value::RpcValue;

fn s(text: &str) -> RpcValue {
    RpcValue::from_str(text)
}

fn u(n: u64) -> RpcValue {
    RpcValue::from_u64(n)
}

fn i(n: i64) -> RpcValue {
    RpcValue::from_i64(n)
}

#[test]
fn test_handle_redraw_empty() {
    let mut state = NvimState::default();
    handle_redraw_event(&mut state, &[]);
    assert_eq!(state.current_mode, "normal");

    handle_redraw_event(&mut state, &[i(123)]);
    assert_eq!(state.current_mode, "normal");
}

#[test]
fn test_handle_grid_resize() {
    let mut state = NvimState::default();

    let event = vec![s("grid_resize"), RpcValue::Array(vec![u(1), u(100), u(40)])];
    handle_redraw_event(&mut state, &event);

    let grid1 = state.grids.get(&1).expect("Grid 1 should exist");
    assert_eq!(grid1.width, 100);
    assert_eq!(grid1.height, 40);

    let event2 = vec![s("grid_resize"), RpcValue::Array(vec![u(2), u(50), u(20)])];
    handle_redraw_event(&mut state, &event2);

    let grid2 = state.grids.get(&2).expect("Grid 2 should exist");
    assert_eq!(grid2.width, 50);
    assert_eq!(grid2.height, 20);
}

#[test]
fn test_handle_default_colors_set() {
    let mut state = NvimState::default();
    let event = vec![
        s("default_colors_set"),
        RpcValue::Array(vec![i(0xffffff), i(0x000000), i(0xff0000)]),
    ];
    handle_redraw_event(&mut state, &event);

    assert_eq!(state.default_fg, 0xffffff);
    assert_eq!(state.default_bg, 0x000000);
    assert_eq!(state.default_sp, 0xff0000);
}

#[test]
fn test_handle_hl_attr_define() {
    let mut state = NvimState::default();
    let mut map = Vec::new();
    map.push((s("foreground"), i(0x112233)));
    map.push((s("background"), i(0x445566)));
    map.push((s("special"), i(0x778899)));
    map.push((s("bold"), RpcValue::from_bool(true)));
    map.push((s("italic"), RpcValue::from_bool(true)));
    map.push((s("underline"), RpcValue::from_bool(true)));
    map.push((s("undercurl"), RpcValue::from_bool(true)));
    map.push((s("reverse"), RpcValue::from_bool(true)));
    map.push((s("strikethrough"), RpcValue::from_bool(true)));
    map.push((s("blend"), u(50)));

    let event = vec![
        s("hl_attr_define"),
        RpcValue::Array(vec![u(10), RpcValue::Dict(map), RpcValue::Dict(vec![]), RpcValue::Array(vec![])]),
    ];
    handle_redraw_event(&mut state, &event);

    let hl = state.highlights.get(&10).expect("Highlight 10 should exist");
    assert_eq!(hl.foreground, Some(0x112233));
    assert_eq!(hl.background, Some(0x445566));
    assert_eq!(hl.special, Some(0x778899));
    assert!(hl.bold);
    assert!(hl.italic);
    assert!(hl.underline);
    assert!(hl.undercurl);
    assert!(hl.reverse);
    assert!(hl.strikethrough);
    assert_eq!(hl.blend, 50);
}

#[test]
fn test_handle_grid_line_ascii_and_repeat() {
    let mut state = NvimState::default();

    let cells = vec![
        RpcValue::Array(vec![s("A"), u(5), u(3)]),
        RpcValue::Array(vec![s("B"), u(6)]),
    ];
    let event = vec![s("grid_line"), RpcValue::Array(vec![u(1), u(0), u(0), RpcValue::Array(cells)])];
    handle_redraw_event(&mut state, &event);

    let grid = state.grids.get(&1).unwrap();
    for col in 0..3 {
        assert_eq!(grid.row(0)[col].text_str(), "A");
        assert_eq!(grid.row(0)[col].hl_id, 5);
        assert_eq!(grid.row(0)[col].width, 1);
    }
    assert_eq!(grid.row(0)[3].text_str(), "B");
    assert_eq!(grid.row(0)[3].hl_id, 6);
    assert_eq!(grid.row(0)[3].width, 1);
}

#[test]
fn test_handle_grid_line_cjk_double_width() {
    let mut state = NvimState::default();

    let cells = vec![RpcValue::Array(vec![s("中"), u(1)]), RpcValue::Array(vec![s(""), u(1)])];
    let event = vec![s("grid_line"), RpcValue::Array(vec![u(1), u(1), u(0), RpcValue::Array(cells)])];
    handle_redraw_event(&mut state, &event);

    let grid = state.grids.get(&1).unwrap();
    assert_eq!(grid.row(1)[0].text_str(), "中");
    assert_eq!(grid.row(1)[0].width, 2);
    assert_eq!(grid.row(1)[1].text_str(), "");
    assert_eq!(grid.row(1)[1].width, 0);
}

#[test]
fn test_handle_grid_cursor_goto() {
    let mut state = NvimState::default();
    let event = vec![s("grid_cursor_goto"), RpcValue::Array(vec![u(1), u(15), u(30)])];
    handle_redraw_event(&mut state, &event);

    assert_eq!(state.active_grid, 1);
    let grid = state.grids.get(&1).unwrap();
    assert_eq!(grid.cursor_row, 15);
    assert_eq!(grid.cursor_col, 30);
}

#[test]
fn test_handle_grid_scroll() {
    let mut state = NvimState::default();
    if let Some(grid) = state.grids.get_mut(&1) {
        grid.set_cell(0, 0, Cell::new("Top", 0, 1));
        grid.set_cell(1, 0, Cell::new("Second", 0, 1));
    }

    let event = vec![
        s("grid_scroll"),
        RpcValue::Array(vec![u(1), u(0), u(24), u(0), u(80), i(1), i(0)]),
    ];
    handle_redraw_event(&mut state, &event);

    let grid = state.grids.get(&1).unwrap();
    assert_eq!(grid.get_cell(0, 0).unwrap().text_str(), "Second");
}

#[test]
fn test_handle_grid_clear_and_destroy() {
    let mut state = NvimState::default();
    if let Some(grid) = state.grids.get_mut(&1) {
        grid.set_cell(0, 0, Cell::new("Hello", 0, 1));
    }

    let clear_event = vec![s("grid_clear"), RpcValue::Array(vec![u(1)])];
    handle_redraw_event(&mut state, &clear_event);
    assert_eq!(state.grids.get(&1).unwrap().get_cell(0, 0).unwrap().text_str(), " ");

    let destroy_event = vec![s("grid_destroy"), RpcValue::Array(vec![u(1)])];
    handle_redraw_event(&mut state, &destroy_event);
    assert!(!state.grids.contains_key(&1));
}

#[test]
fn test_handle_mode_info_set_and_change() {
    let mut state = NvimState::default();

    let mut mode_normal = Vec::new();
    mode_normal.push((s("name"), s("normal")));
    mode_normal.push((s("cursor_shape"), s("block")));
    mode_normal.push((s("cell_percentage"), u(100)));

    let mut mode_insert = Vec::new();
    mode_insert.push((s("name"), s("insert")));
    mode_insert.push((s("cursor_shape"), s("vertical")));
    mode_insert.push((s("cell_percentage"), u(25)));
    mode_insert.push((s("blinkon"), u(500)));

    let mode_info_event = vec![
        s("mode_info_set"),
        RpcValue::Array(vec![
            RpcValue::from_bool(true),
            RpcValue::Array(vec![RpcValue::Dict(mode_normal), RpcValue::Dict(mode_insert)]),
        ]),
    ];
    handle_redraw_event(&mut state, &mode_info_event);

    assert_eq!(state.mode_info.len(), 2);
    assert_eq!(state.mode_info[1].name, "insert");
    assert_eq!(state.mode_info[1].cursor_shape, "vertical");
    assert_eq!(state.mode_info[1].blinkon, 500);

    let mode_change_event = vec![s("mode_change"), RpcValue::Array(vec![s("insert"), u(1)])];
    handle_redraw_event(&mut state, &mode_change_event);

    assert_eq!(state.current_mode, "insert");
    assert_eq!(state.current_mode_idx, 1);
}

#[test]
fn test_handle_title_and_options() {
    let mut state = NvimState::default();

    let title_event = vec![s("set_title"), RpcValue::Array(vec![s("Zenvi - main.rs")])];
    handle_redraw_event(&mut state, &title_event);
    assert_eq!(state.title, "Zenvi - main.rs");

    let font_event = vec![
        s("option_set"),
        RpcValue::Array(vec![s("guifont"), s("JetBrainsMono Nerd Font:h15")]),
    ];
    handle_redraw_event(&mut state, &font_event);
    assert_eq!(state.guifont, "JetBrainsMono Nerd Font:h15");

    let linespace_event = vec![s("option_set"), RpcValue::Array(vec![s("linespace"), i(4)])];
    handle_redraw_event(&mut state, &linespace_event);
    assert_eq!(state.linespace, 4);
}

#[test]
fn flush_reports_a_frame_only_with_a_call() {
    let mut state = NvimState::default();
    assert!(handle_redraw_event(&mut state, &[s("flush"), RpcValue::Array(vec![])]));
    assert!(!handle_redraw_event(&mut state, &[s("flush")]));
    assert!(!handle_redraw_event(&mut state, &[s("grid_clear"), RpcValue::Array(vec![u(1)])]));
}

#[test]
fn grid_scroll_down_moves_rows_and_blanks_the_top() {
    let mut state = NvimState::default();
    if let Some(grid) = state.grids.get_mut(&1) {
        grid.set_cell(0, 0, Cell::new("Top", 0, 1));
    }
    let event = vec![
        s("grid_scroll"),
        RpcValue::Array(vec![u(1), u(0), u(24), u(0), u(80), i(-2), i(0)]),
    ];
    handle_redraw_event(&mut state, &event);
    let grid = state.grids.get(&1).unwrap();
    assert_eq!(grid.get_cell(2, 0).unwrap().text_str(), "Top");
    assert_eq!(grid.get_cell(0, 0).unwrap().text_str(), " ");
}

#[test]
fn grid_line_stops_at_the_row_end() {
    let mut state = NvimState::default();
    let cells = vec![RpcValue::Array(vec![s("x"), u(3), u(10)])];
    let event = vec![s("grid_line"), RpcValue::Array(vec![u(1), u(0), u(75), RpcValue::Array(cells)])];
    handle_redraw_event(&mut state, &event);
    let grid = state.grids.get(&1).unwrap();
    assert_eq!(grid.row(0).len(), 80);
    assert_eq!(grid.row(0)[79].text_str(), "x");
    assert_eq!(grid.row(0)[74].text_str(), " ");
}

#[test]
fn unknown_events_leave_the_state() {
    let mut state = NvimState::default();
    let event = vec![s("busy_start"), RpcValue::Array(vec![])];
    assert!(!handle_redraw_event(&mut state, &event));
    assert_eq!(state.title, "Zenvi");
    assert_eq!(state.grids.len(), 1);
}
