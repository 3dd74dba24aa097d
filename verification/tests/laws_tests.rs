use zenvi::events::handle_redraw_event;
use zenvi::render::GridRenderCache;
use zenvi::session::apply_redraw_batch;
use zenvi::state::{Cell, Grid, NvimState};
use zenvi::titlebar::format_title;
use zenvi::value::RpcValue;

fn numbered_grid(w: usize, h: usize) -> Grid {
    let mut g = Grid::new(1, w, h);
    for r in 0..h {
        for c in 0..w {
            g.set_cell(r, c, Cell::new(&format!("{}{}", r, c), r as u32, 1));
        }
    }
    g
}

#[test]
fn growing_then_shrinking_gives_the_grid_back() {
    let original = numbered_grid(3, 2);
    let mut g = numbered_grid(3, 2);
    g.resize(7, 5);
    g.resize(3, 2);
    assert_eq!(g.cells, original.cells);
}

#[test]
fn cache_rows_move_like_grid_rows() {
    for rows in [1i64, 2, -1, -3] {
        let mut grid = numbered_grid(4, 6);
        let before = grid.cells.clone();
        let mut cache: GridRenderCache<usize, u32> = GridRenderCache::new();
        cache.check_dimensions(4, 6);
        for r in 0..6 {
            cache.store_row(r, r, 1);
        }
        grid.scroll(1, 5, 0, 4, rows);
        cache.scroll(1, 5, rows);
        for r in 0..6 {
            match cache.rows[r] {
                Some(src) => assert_eq!(grid.cells[r], before[src]),
                None => assert!(grid.cells[r].iter().all(|c| *c == Cell::default())),
            }
        }
    }
}

#[test]
fn formatting_a_title_twice_changes_nothing() {
    for raw in ["", "  nvim ", "a.rs - NVIM", "  x - nvim  ", "/etc/hosts", "Zenvi", " - Nvim"] {
        let once = format_title(raw);
        assert_eq!(format_title(&once), once);
    }
}

#[test]
fn redraw_batches_can_be_split() {
    let s = |t: &str| RpcValue::from_str(t);
    let u = RpcValue::from_u64;
    let events = vec![
        RpcValue::Array(vec![s("grid_resize"), RpcValue::Array(vec![u(1), u(10), u(4)])]),
        RpcValue::Array(vec![s("flush"), RpcValue::Array(vec![])]),
        RpcValue::Array(vec![s("set_title"), RpcValue::Array(vec![s("t")])]),
        RpcValue::Array(vec![s("flush"), RpcValue::Array(vec![])]),
    ];
    let mut whole = NvimState::default();
    let n_whole = apply_redraw_batch(&mut whole, &events);
    let mut split = NvimState::default();
    let n1 = apply_redraw_batch(&mut split, &events[..1].to_vec());
    let n2 = apply_redraw_batch(&mut split, &events[1..].to_vec());
    assert_eq!(n_whole, n1 + n2);
    assert_eq!(whole.title, split.title);
    assert_eq!(whole.grids.get(&1).unwrap().cells, split.grids.get(&1).unwrap().cells);
}

#[test]
fn redraw_calls_touch_only_their_grid() {
    let s = |t: &str| RpcValue::from_str(t);
    let u = RpcValue::from_u64;
    let mut state = NvimState::default();
    handle_redraw_event(&mut state, &[s("grid_resize"), RpcValue::Array(vec![u(2), u(5), u(3)])]);
    let grid1 = state.grids.get(&1).unwrap().cells.clone();
    handle_redraw_event(
        &mut state,
        &[s("grid_line"), RpcValue::Array(vec![u(2), u(0), u(0), RpcValue::Array(vec![RpcValue::Array(vec![s("x")])])])],
    );
    handle_redraw_event(&mut state, &[s("grid_clear"), RpcValue::Array(vec![u(2)])]);
    handle_redraw_event(&mut state, &[s("grid_destroy"), RpcValue::Array(vec![u(2)])]);
    assert_eq!(state.grids.get(&1).unwrap().cells, grid1);
    assert!(!state.grids.contains_key(&2));
}

#[test]
fn two_scrolls_one_way_equal_one_scroll_by_the_sum() {
    for (k1, k2) in [(1i64, 2i64), (2, 1), (1, 1), (-1, -2), (-2, -1), (-3, -1)] {
        let mut twice = numbered_grid(5, 7);
        twice.scroll(1, 6, 1, 4, k1);
        twice.scroll(1, 6, 1, 4, k2);
        let mut once = numbered_grid(5, 7);
        once.scroll(1, 6, 1, 4, k1 + k2);
        assert_eq!(twice.cells, once.cells);
    }
}
