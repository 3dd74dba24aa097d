use zenvi::mouse::{clamp_to_grid, GridPos};
use zenvi::render::{
    cursor_cell, cursor_shape, hash_cells, is_default_space, layout_row, row_spans,
    GridRenderCache, RowLayout, CONTENT_CACHE_LIMIT,
};
use zenvi::state::{Cell, Grid, HighlightAttr, ModeInfo, NvimState};

fn cell(t: &str, hl: u32) -> Cell {
    Cell::new(t, hl, 1)
}

#[test]
fn hash_of_known_cells() {
    assert_eq!(hash_cells(&[]), 0xcbf29ce484222325);
    assert_eq!(hash_cells(&[cell("a", 1), cell(" ", 0)]), 0xcb03c577e98061cf);
    assert_ne!(hash_cells(&[cell("a", 1)]), hash_cells(&[cell("a", 2)]));
}

#[test]
fn default_spaces() {
    let mut state = NvimState::default();
    let bg = state.default_bg;
    assert!(is_default_space(&cell(" ", 0), &state, bg));
    assert!(is_default_space(&cell("", 9), &state, bg));
    assert!(!is_default_space(&cell("x", 0), &state, bg));
    let mut attr = HighlightAttr::default();
    attr.underline = true;
    state.highlights.insert(3, attr);
    assert!(!is_default_space(&cell(" ", 3), &state, bg));
    let mut attr2 = HighlightAttr::default();
    attr2.background = Some(bg);
    state.highlights.insert(4, attr2);
    assert!(is_default_space(&cell(" ", 4), &state, bg));
}

#[test]
fn row_layouts() {
    let state = NvimState::default();
    let blank: Vec<Cell> = (0..10).map(|_| cell(" ", 0)).collect();
    assert_eq!(layout_row(&blank, &state), RowLayout::Empty);

    let mut text = blank.clone();
    text[0] = cell("f", 0);
    text[1] = cell("n", 0);
    assert_eq!(layout_row(&text, &state), RowLayout::Single { end: 2 });

    let mut split = text.clone();
    split[9] = cell("|", 0);
    assert_eq!(layout_row(&split, &state), RowLayout::Split { left_end: 2, right_start: 9, right_end: 10 });

    let mut close = text.clone();
    close[4] = cell("x", 0);
    assert_eq!(layout_row(&close, &state), RowLayout::Single { end: 5 });
}

#[test]
fn spans_merge_equal_styles_and_isolate_the_cursor() {
    let mut state = NvimState::default();
    let mut attr = HighlightAttr::default();
    attr.foreground = Some(0x112233);
    attr.bold = true;
    state.highlights.insert(7, attr);
    let mut grid = Grid::new(1, 5, 2);
    grid.set_cell(0, 0, cell("a", 0));
    grid.set_cell(0, 1, cell("b", 0));
    grid.set_cell(0, 2, cell("c", 7));
    grid.set_cell(0, 3, Cell::new("", 0, 0));
    grid.cursor_row = 1;
    let spans = row_spans(&state, &grid, 0);
    assert_eq!(spans.len(), 3);
    assert_eq!(spans[0].text, "ab");
    assert_eq!(spans[0].fg, state.default_fg);
    assert_eq!(spans[1].text, "c");
    assert_eq!(spans[1].fg, 0x112233);
    assert!(spans[1].bold);
    assert_eq!(spans[2].text, " ");

    grid.cursor_row = 0;
    grid.cursor_col = 1;
    let spans = row_spans(&state, &grid, 0);
    assert_eq!(spans[0].text, "a");
    assert_eq!(spans[1].text, "b");
    assert!(spans[1].is_cursor);
    assert_eq!(spans[1].fg, state.default_bg);
    assert_eq!(spans[1].bg, state.default_fg);
}

#[test]
fn cursor_on_default_background_is_black_on_white() {
    let mut state = NvimState::default();
    let mut attr = HighlightAttr::default();
    attr.foreground = Some(state.default_bg);
    state.highlights.insert(2, attr);
    let mut grid = Grid::new(1, 2, 1);
    grid.set_cell(0, 0, cell("x", 2));
    let spans = row_spans(&state, &grid, 0);
    assert!(spans[0].is_cursor);
    assert_eq!(spans[0].fg, 0x000000);
    assert_eq!(spans[0].bg, 0xffffff);
}

#[test]
fn cursor_shape_and_cell() {
    let mut state = NvimState::default();
    assert_eq!(cursor_shape(&state), "block");
    let mut m = ModeInfo::default();
    m.cursor_shape = "vertical".to_string();
    state.mode_info.push(ModeInfo::default());
    state.mode_info.push(m);
    state.current_mode_idx = 1;
    assert_eq!(cursor_shape(&state), "vertical");

    let mut grid = Grid::new(1, 3, 1);
    grid.set_cell(0, 0, Cell::new("中", 0, 2));
    grid.set_cell(0, 1, Cell::new("", 0, 0));
    assert_eq!(cursor_cell(&grid, 0, 0), ("中", 2));
    assert_eq!(cursor_cell(&grid, 0, 1), (" ", 1));
    assert_eq!(cursor_cell(&grid, 5, 5), (" ", 1));
}

#[test]
fn render_cache_dimensions_and_rows() {
    let mut cache: GridRenderCache<String, u32> = GridRenderCache::new();
    assert_eq!(cache.last_cursor_row, usize::MAX);
    cache.check_dimensions(10, 4);
    assert_eq!(cache.rows.len(), 4);
    assert_eq!(cache.row_versions, vec![0, 0, 0, 0]);
    assert!(cache.row_is_dirty(0, 0));
    cache.store_row(0, "r0".to_string(), 5);
    assert!(!cache.row_is_dirty(0, 5));
    assert!(cache.row_is_dirty(0, 6));
    cache.store_row(9, "nope".to_string(), 1);
    assert_eq!(cache.rows.len(), 4);
    cache.check_dimensions(10, 4);
    assert_eq!(cache.rows[0], Some("r0".to_string()));
    cache.check_dimensions(11, 4);
    assert_eq!(cache.rows[0], None);
}

fn filled_cache() -> GridRenderCache<String, u32> {
    let mut cache: GridRenderCache<String, u32> = GridRenderCache::new();
    cache.check_dimensions(10, 5);
    for r in 0..5 {
        cache.store_row(r, format!("r{}", r), (r + 1) as u32);
    }
    cache
}

#[test]
fn render_cache_scroll_up_and_down() {
    let mut up = filled_cache();
    up.scroll(0, 5, 2);
    assert_eq!(up.rows[0], Some("r2".to_string()));
    assert_eq!(up.rows[2], Some("r4".to_string()));
    assert_eq!(up.rows[3], None);
    assert_eq!(up.row_versions, vec![3, 4, 5, 0, 0]);

    let mut down = filled_cache();
    down.scroll(1, 4, -1);
    assert_eq!(down.rows[0], Some("r0".to_string()));
    assert_eq!(down.rows[1], None);
    assert_eq!(down.rows[2], Some("r1".to_string()));
    assert_eq!(down.rows[3], Some("r2".to_string()));
    assert_eq!(down.rows[4], Some("r4".to_string()));
    assert_eq!(down.row_versions, vec![1, 0, 2, 3, 5]);

    let mut all = filled_cache();
    all.scroll(0, 100, 7);
    assert!(all.rows.iter().all(|r| r.is_none()));

    let mut none = filled_cache();
    none.scroll(3, 2, 1);
    none.scroll(0, 5, 0);
    assert_eq!(none.rows[0], Some("r0".to_string()));
}

#[test]
fn render_cache_invalidation_and_content() {
    let mut cache = filled_cache();
    cache.invalidate_rows(1, 3);
    assert_eq!(cache.rows[0], Some("r0".to_string()));
    assert_eq!(cache.rows[1], None);
    assert_eq!(cache.rows[2], None);
    assert_eq!(cache.row_versions, vec![1, 0, 0, 4, 5]);

    cache.remember(42, 7);
    assert_eq!(cache.lookup(42), Some(&7));
    assert_eq!(cache.lookup(43), None);
    for h in 0..(CONTENT_CACHE_LIMIT as u64 - 1) {
        cache.remember(1000 + h, 1);
    }
    assert_eq!(cache.content_cache.len(), CONTENT_CACHE_LIMIT);
    cache.remember(5, 5);
    assert_eq!(cache.content_cache.len(), 1);
    cache.invalidate_all();
    assert!(cache.rows.is_empty());
    assert!(cache.content_cache.is_empty());
}

#[test]
fn render_cache_cursor_freezes_during_prewarm() {
    let mut cache: GridRenderCache<String, u32> = GridRenderCache::new();
    assert_eq!(cache.cursor_to_draw(3, 4, false), (3, 4));
    assert_eq!(cache.cursor_to_draw(8, 9, true), (3, 4));
    assert_eq!(cache.cursor_to_draw(8, 9, false), (8, 9));
}

#[test]
fn pointer_positions_stay_in_the_grid() {
    assert_eq!(clamp_to_grid(5, 5, 80, 24), GridPos { col: 5, row: 5 });
    assert_eq!(clamp_to_grid(500, 50, 80, 24), GridPos { col: 79, row: 23 });
    assert_eq!(clamp_to_grid(3, 3, 0, 0), GridPos { col: 0, row: 0 });
}

#[test]
fn render_cache_follows_full_width_scrolls_only() {
    let mut full = filled_cache();
    full.follow_scroll(0, 5, 0, 8, 1, 10);
    assert_eq!(full.rows[0], Some("r1".to_string()));
    assert_eq!(full.rows[4], None);

    let mut partial = filled_cache();
    partial.follow_scroll(1, 3, 2, 10, 1, 10);
    assert_eq!(partial.rows[0], Some("r0".to_string()));
    assert_eq!(partial.rows[1], None);
    assert_eq!(partial.rows[2], None);
    assert_eq!(partial.rows[3], Some("r3".to_string()));
    assert_eq!(partial.row_versions, vec![1, 0, 0, 4, 5]);
}

#[test]
fn render_cache_dirty_rows() {
    let cache = filled_cache();
    assert_eq!(cache.dirty_rows(&vec![1, 2, 3, 4, 5], 5), Vec::<usize>::new());
    assert_eq!(cache.dirty_rows(&vec![1, 9, 3], 5), vec![1, 3, 4]);
    assert_eq!(cache.dirty_rows(&vec![1, 2, 3, 4, 5, 6, 7], 7), vec![5, 6]);
}
