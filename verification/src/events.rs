//! Applying Neovim's `redraw` notifications (the `ext_linegrid` UI protocol)
//! to the editor state.
use crate::state::{
    blank_cell, blank_rect, default_mode_info, min_usize, plain_highlight, resized_cells,
    scrolled_cells, run_end, write_run, Cell, CellView, Grid, GridView, HighlightAttr, ModeInfo,
    ModeInfoView, NvimState, NvimStateView,
};
use crate::text::str_eq;
use crate::value::{entries_view, values_view, RpcValue, ValueView};
use vstd::prelude::*;

verus! {

broadcast use vstd::std_specs::hash::group_hash_axioms;

/// The number of terminal columns that the text `s` occupies, as
/// `unicode_width::UnicodeWidthStr::width` computes it.
pub uninterp spec fn display_width(s: Seq<char>) -> usize;

/// `unicode_width::UnicodeWidthStr::width`: the display width of `s` in
/// terminal columns.  The contract names the result and states only that
/// the empty string has width 0 (the crate sums the widths of the
/// characters, starting from 0); the width tables themselves are not stated.
#[verifier::external_body]
fn str_display_width(s: &str) -> (w: usize)
    ensures
        w == display_width(s@),
        s@.len() == 0 ==> w == 0,
{
    unicode_width::UnicodeWidthStr::width(s)
}

/// The redraw events that the state reacts to.
#[derive(Debug, Clone, Copy, PartialEq, Eq, Structural)]
pub enum RedrawKind {
    GridResize,
    DefaultColorsSet,
    HlAttrDefine,
    GridLine,
    GridCursorGoto,
    GridScroll,
    GridClear,
    GridDestroy,
    ModeInfoSet,
    ModeChange,
    SetTitle,
    OptionSet,
    Flush,
    Other,
}

/// The kind of the redraw event named `name`.
pub open spec fn redraw_kind(name: Seq<char>) -> RedrawKind {
    if name == "grid_resize"@ {
        RedrawKind::GridResize
    } else if name == "default_colors_set"@ {
        RedrawKind::DefaultColorsSet
    } else if name == "hl_attr_define"@ {
        RedrawKind::HlAttrDefine
    } else if name == "grid_line"@ {
        RedrawKind::GridLine
    } else if name == "grid_cursor_goto"@ {
        RedrawKind::GridCursorGoto
    } else if name == "grid_scroll"@ {
        RedrawKind::GridScroll
    } else if name == "grid_clear"@ {
        RedrawKind::GridClear
    } else if name == "grid_destroy"@ {
        RedrawKind::GridDestroy
    } else if name == "mode_info_set"@ {
        RedrawKind::ModeInfoSet
    } else if name == "mode_change"@ {
        RedrawKind::ModeChange
    } else if name == "set_title"@ {
        RedrawKind::SetTitle
    } else if name == "option_set"@ {
        RedrawKind::OptionSet
    } else if name == "flush"@ {
        RedrawKind::Flush
    } else {
        RedrawKind::Other
    }
}

/// The kind of the redraw event named `name`.
pub fn redraw_kind_of(name: &str) -> (res: RedrawKind)
    ensures
        res == redraw_kind(name@),
{
    if str_eq(name, "grid_resize") {
        RedrawKind::GridResize
    } else if str_eq(name, "default_colors_set") {
        RedrawKind::DefaultColorsSet
    } else if str_eq(name, "hl_attr_define") {
        RedrawKind::HlAttrDefine
    } else if str_eq(name, "grid_line") {
        RedrawKind::GridLine
    } else if str_eq(name, "grid_cursor_goto") {
        RedrawKind::GridCursorGoto
    } else if str_eq(name, "grid_scroll") {
        RedrawKind::GridScroll
    } else if str_eq(name, "grid_clear") {
        RedrawKind::GridClear
    } else if str_eq(name, "grid_destroy") {
        RedrawKind::GridDestroy
    } else if str_eq(name, "mode_info_set") {
        RedrawKind::ModeInfoSet
    } else if str_eq(name, "mode_change") {
        RedrawKind::ModeChange
    } else if str_eq(name, "set_title") {
        RedrawKind::SetTitle
    } else if str_eq(name, "option_set") {
        RedrawKind::OptionSet
    } else if str_eq(name, "flush") {
        RedrawKind::Flush
    } else {
        RedrawKind::Other
    }
}

/// The value as a `u64`, or `d` when it is none.
pub open spec fn u64_or(v: ValueView, d: u64) -> u64 {
    match v.to_u64() {
        Some(n) => n,
        None => d,
    }
}

/// The state with the grid `id` replaced by `g`.
pub open spec fn with_grid(s: NvimStateView, id: u64, g: GridView) -> NvimStateView {
    NvimStateView { grids: s.grids.insert(id, g), ..s }
}

/// `grid_resize [grid, width, height]`: resizes the grid, or creates it blank.
pub open spec fn apply_grid_resize(s: NvimStateView, args: Seq<ValueView>) -> NvimStateView {
    if args.len() >= 3 {
        let id = u64_or(args[0], 1);
        let w = u64_or(args[1], 80) as usize;
        let h = u64_or(args[2], 24) as usize;
        if s.grids.contains_key(id) {
            let g = s.grids[id];
            with_grid(
                s,
                id,
                GridView { width: w, height: h, cells: resized_cells(g.cells, w as nat, h as nat), ..g },
            )
        } else {
            with_grid(
                s,
                id,
                GridView {
                    id,
                    width: w,
                    height: h,
                    cells: blank_rect(w as nat, h as nat),
                    cursor_row: 0,
                    cursor_col: 0,
                },
            )
        }
    } else {
        s
    }
}

/// A colour argument: the new colour when the value is a non-negative `i64`.
pub open spec fn color_arg(v: ValueView, current: u32) -> u32 {
    match v.to_i64() {
        Some(c) => if c >= 0 {
            c as u32
        } else {
            current
        },
        None => current,
    }
}

/// `default_colors_set [fg, bg, sp, ...]`.
pub open spec fn apply_default_colors(s: NvimStateView, args: Seq<ValueView>) -> NvimStateView {
    if args.len() >= 3 {
        NvimStateView {
            default_fg: color_arg(args[0], s.default_fg),
            default_bg: color_arg(args[1], s.default_bg),
            default_sp: color_arg(args[2], s.default_sp),
            ..s
        }
    } else {
        s
    }
}

/// One entry of an `hl_attr_define` attribute map applied to `attr`.
pub open spec fn hl_entry(attr: HighlightAttr, key: ValueView, v: ValueView) -> HighlightAttr {
    match key.to_str() {
        None => attr,
        Some(k) => if k == "foreground"@ {
            match v.to_i64() {
                Some(c) => HighlightAttr { foreground: Some(c as u32), ..attr },
                None => attr,
            }
        } else if k == "background"@ {
            match v.to_i64() {
                Some(c) => HighlightAttr { background: Some(c as u32), ..attr },
                None => attr,
            }
        } else if k == "special"@ {
            match v.to_i64() {
                Some(c) => HighlightAttr { special: Some(c as u32), ..attr },
                None => attr,
            }
        } else if k == "reverse"@ {
            HighlightAttr { reverse: v.to_bool() == Some(true), ..attr }
        } else if k == "italic"@ {
            HighlightAttr { italic: v.to_bool() == Some(true), ..attr }
        } else if k == "bold"@ {
            HighlightAttr { bold: v.to_bool() == Some(true), ..attr }
        } else if k == "underline"@ {
            HighlightAttr { underline: v.to_bool() == Some(true), ..attr }
        } else if k == "undercurl"@ {
            HighlightAttr { undercurl: v.to_bool() == Some(true), ..attr }
        } else if k == "strikethrough"@ {
            HighlightAttr { strikethrough: v.to_bool() == Some(true), ..attr }
        } else if k == "blend"@ {
            HighlightAttr { blend: u64_or(v, 0) as u8, ..attr }
        } else {
            attr
        },
    }
}

/// The highlight that an attribute map describes, its entries applied in order.
pub open spec fn hl_from_entries(entries: Seq<(ValueView, ValueView)>) -> HighlightAttr
    decreases entries.len(),
{
    if entries.len() == 0 {
        plain_highlight()
    } else {
        let e = entries.last();
        hl_entry(hl_from_entries(entries.drop_last()), e.0, e.1)
    }
}

/// `hl_attr_define [id, rgb_attr, ...]`.
pub open spec fn apply_hl_attr_define(s: NvimStateView, args: Seq<ValueView>) -> NvimStateView {
    if args.len() >= 2 {
        let id = u64_or(args[0], 0) as u32;
        let attr = match args[1].to_map() {
            Some(entries) => hl_from_entries(entries),
            None => plain_highlight(),
        };
        NvimStateView { highlights: s.highlights.insert(id, attr), ..s }
    } else {
        s
    }
}

/// One cell entry `[text, hl_id?, repeat?]` of a `grid_line` call applied to
/// `row`, writing from column `col` with the current highlight `hl`:
/// the row, the next column and the highlight after it.
pub open spec fn line_step(row: Seq<CellView>, col: int, hl: u32, entry: ValueView) -> (
    Seq<CellView>,
    int,
    u32,
) {
    match entry.to_array() {
        None => (row, col, hl),
        Some(info) => if info.len() == 0 {
            (row, col, hl)
        } else {
            let text = match info[0].to_str() {
                Some(t) => t,
                None => Seq::empty(),
            };
            let hl2 = if info.len() >= 2 {
                u64_or(info[1], 0) as u32
            } else {
                hl
            };
            let repeat = if info.len() >= 3 {
                u64_or(info[2], 1) as usize
            } else {
                1usize
            };
            let cell = CellView { text, hl_id: hl2, width: display_width(text) };
            (write_run(row, col, cell, repeat as int), run_end(row.len() as int, col, repeat as int), hl2)
        },
    }
}

/// The cell entries of a `grid_line` call applied in order.
pub open spec fn line_cells(row: Seq<CellView>, col: int, hl: u32, entries: Seq<ValueView>) -> (
    Seq<CellView>,
    int,
    u32,
)
    decreases entries.len(),
{
    if entries.len() == 0 {
        (row, col, hl)
    } else {
        let prev = line_cells(row, col, hl, entries.drop_last());
        line_step(prev.0, prev.1, prev.2, entries.last())
    }
}

/// `grid_line [grid, row, col_start, cells, ...]`.
pub open spec fn apply_grid_line(s: NvimStateView, args: Seq<ValueView>) -> NvimStateView {
    if args.len() >= 4 {
        let id = u64_or(args[0], 1);
        let row = u64_or(args[1], 0) as usize;
        let col = u64_or(args[2], 0) as usize;
        match args[3].to_array() {
            None => s,
            Some(entries) => if s.grids.contains_key(id) && row < s.grids[id].height {
                let g = s.grids[id];
                let new_row = line_cells(g.cells[row as int], col as int, 0, entries).0;
                with_grid(s, id, GridView { cells: g.cells.update(row as int, new_row), ..g })
            } else {
                s
            },
        }
    } else {
        s
    }
}

/// `grid_cursor_goto [grid, row, col]`: the grid becomes the active one.
pub open spec fn apply_cursor_goto(s: NvimStateView, args: Seq<ValueView>) -> NvimStateView {
    if args.len() >= 3 {
        let id = u64_or(args[0], 1);
        let row = u64_or(args[1], 0) as usize;
        let col = u64_or(args[2], 0) as usize;
        let s2 = NvimStateView { active_grid: id, ..s };
        if s.grids.contains_key(id) {
            with_grid(s2, id, GridView { cursor_row: row, cursor_col: col, ..s.grids[id] })
        } else {
            s2
        }
    } else {
        s
    }
}

/// The region and count of a `grid_scroll` call.
pub open spec fn scroll_args(args: Seq<ValueView>) -> (u64, usize, usize, usize, usize, i64) {
    (
        u64_or(args[0], 1),
        u64_or(args[1], 0) as usize,
        u64_or(args[2], 0) as usize,
        u64_or(args[3], 0) as usize,
        u64_or(args[4], 0) as usize,
        match args[5].to_i64() {
            Some(r) => r,
            None => 0,
        },
    )
}

/// `grid_scroll [grid, top, bot, left, right, rows, cols]`.
pub open spec fn apply_grid_scroll(s: NvimStateView, args: Seq<ValueView>) -> NvimStateView {
    if args.len() >= 6 {
        let a = scroll_args(args);
        if s.grids.contains_key(a.0) {
            let g = s.grids[a.0];
            with_grid(
                s,
                a.0,
                GridView {
                    cells: scrolled_cells(g.cells, g.width, g.height, a.1, a.2, a.3, a.4, a.5),
                    ..g
                },
            )
        } else {
            s
        }
    } else {
        s
    }
}

/// The grid that `grid_clear` and `grid_destroy` name: the first argument, or 1.
pub open spec fn target_grid(args: Seq<ValueView>) -> u64 {
    if args.len() > 0 {
        u64_or(args[0], 1)
    } else {
        1
    }
}

/// `grid_clear [grid]`: every cell of the grid becomes blank.
pub open spec fn apply_grid_clear(s: NvimStateView, args: Seq<ValueView>) -> NvimStateView {
    let id = target_grid(args);
    if s.grids.contains_key(id) {
        let g = s.grids[id];
        with_grid(
            s,
            id,
            GridView {
                cells: Seq::new(
                    g.cells.len(),
                    |r: int| Seq::new(g.cells[r].len(), |c: int| blank_cell()),
                ),
                ..g
            },
        )
    } else {
        s
    }
}

/// `grid_destroy [grid]`: the grid is forgotten.
pub open spec fn apply_grid_destroy(s: NvimStateView, args: Seq<ValueView>) -> NvimStateView {
    NvimStateView { grids: s.grids.remove(target_grid(args)), ..s }
}

/// One entry of a `mode_info_set` mode map applied to `m`.
pub open spec fn mode_entry(m: ModeInfoView, key: ValueView, v: ValueView) -> ModeInfoView {
    match key.to_str() {
        None => m,
        Some(k) => if k == "name"@ {
            match v.to_str() {
                Some(t) => ModeInfoView { name: t, ..m },
                None => m,
            }
        } else if k == "cursor_shape"@ {
            match v.to_str() {
                Some(t) => ModeInfoView { cursor_shape: t, ..m },
                None => m,
            }
        } else if k == "cell_percentage"@ {
            ModeInfoView { cell_percentage: u64_or(v, 100), ..m }
        } else if k == "blinkwait"@ {
            ModeInfoView { blinkwait: u64_or(v, 0), ..m }
        } else if k == "blinkon"@ {
            ModeInfoView { blinkon: u64_or(v, 0), ..m }
        } else if k == "blinkoff"@ {
            ModeInfoView { blinkoff: u64_or(v, 0), ..m }
        } else if k == "hl_id"@ {
            ModeInfoView { hl_id: u64_or(v, 0) as u32, ..m }
        } else {
            m
        },
    }
}

/// The mode that a mode map describes, its entries applied in order.
pub open spec fn mode_from_entries(entries: Seq<(ValueView, ValueView)>) -> ModeInfoView
    decreases entries.len(),
{
    if entries.len() == 0 {
        default_mode_info()
    } else {
        let e = entries.last();
        mode_entry(mode_from_entries(entries.drop_last()), e.0, e.1)
    }
}

/// The modes that a `mode_info_set` list describes: one per map in it.
pub open spec fn modes_from_list(items: Seq<ValueView>) -> Seq<ModeInfoView>
    decreases items.len(),
{
    if items.len() == 0 {
        Seq::empty()
    } else {
        let prev = modes_from_list(items.drop_last());
        match items.last().to_map() {
            Some(entries) => prev.push(mode_from_entries(entries)),
            None => prev,
        }
    }
}

/// `mode_info_set [cursor_style_enabled, mode_info]`.
pub open spec fn apply_mode_info_set(s: NvimStateView, args: Seq<ValueView>) -> NvimStateView {
    if args.len() >= 2 {
        match args[1].to_array() {
            Some(items) => NvimStateView { mode_info: modes_from_list(items), ..s },
            None => s,
        }
    } else {
        s
    }
}

/// `mode_change [mode, mode_idx]`.
pub open spec fn apply_mode_change(s: NvimStateView, args: Seq<ValueView>) -> NvimStateView {
    if args.len() >= 2 {
        NvimStateView {
            current_mode: match args[0].to_str() {
                Some(t) => t,
                None => s.current_mode,
            },
            current_mode_idx: u64_or(args[1], 0) as usize,
            ..s
        }
    } else {
        s
    }
}

/// `set_title [title]`.
pub open spec fn apply_set_title(s: NvimStateView, args: Seq<ValueView>) -> NvimStateView {
    if args.len() > 0 {
        match args[0].to_str() {
            Some(t) => NvimStateView { title: t, ..s },
            None => s,
        }
    } else {
        s
    }
}

/// `option_set [name, value]`: keeps `guifont` and `linespace`.
pub open spec fn apply_option_set(s: NvimStateView, args: Seq<ValueView>) -> NvimStateView {
    if args.len() >= 2 {
        match args[0].to_str() {
            Some(name) => if name == "guifont"@ {
                match args[1].to_str() {
                    Some(v) => NvimStateView { guifont: v, ..s },
                    None => s,
                }
            } else if name == "linespace"@ {
                match args[1].to_i64() {
                    Some(v) => NvimStateView { linespace: v, ..s },
                    None => s,
                }
            } else {
                s
            },
            None => s,
        }
    } else {
        s
    }
}

/// One call of a redraw event of kind `kind` applied to the state; a call
/// that is not an array changes nothing.
pub open spec fn apply_call(s: NvimStateView, kind: RedrawKind, call: ValueView) -> NvimStateView {
    match call.to_array() {
        None => s,
        Some(args) => match kind {
            RedrawKind::GridResize => apply_grid_resize(s, args),
            RedrawKind::DefaultColorsSet => apply_default_colors(s, args),
            RedrawKind::HlAttrDefine => apply_hl_attr_define(s, args),
            RedrawKind::GridLine => apply_grid_line(s, args),
            RedrawKind::GridCursorGoto => apply_cursor_goto(s, args),
            RedrawKind::GridScroll => apply_grid_scroll(s, args),
            RedrawKind::GridClear => apply_grid_clear(s, args),
            RedrawKind::GridDestroy => apply_grid_destroy(s, args),
            RedrawKind::ModeInfoSet => apply_mode_info_set(s, args),
            RedrawKind::ModeChange => apply_mode_change(s, args),
            RedrawKind::SetTitle => apply_set_title(s, args),
            RedrawKind::OptionSet => apply_option_set(s, args),
            RedrawKind::Flush => s,
            RedrawKind::Other => s,
        },
    }
}

/// The calls of a redraw event applied in order.
pub open spec fn apply_calls(s: NvimStateView, kind: RedrawKind, calls: Seq<ValueView>) -> NvimStateView
    decreases calls.len(),
{
    if calls.len() == 0 {
        s
    } else {
        apply_call(apply_calls(s, kind, calls.drop_last()), kind, calls.last())
    }
}

/// The state after the redraw event `event` (its name, then its calls).
pub open spec fn redraw_state(s: NvimStateView, event: Seq<ValueView>) -> NvimStateView {
    if event.len() == 0 {
        s
    } else {
        match event[0].to_str() {
            None => s,
            Some(name) => apply_calls(s, redraw_kind(name), event.skip(1)),
        }
    }
}

/// Whether the redraw event is a `flush` with at least one call: the batch
/// of events is complete and the screen should be drawn.
pub open spec fn redraw_flushes(event: Seq<ValueView>) -> bool {
    &&& event.len() > 0
    &&& event[0].to_str() matches Some(name)
    &&& redraw_kind(name) == RedrawKind::Flush
    &&& exists|i: int| 1 <= i < event.len() && (#[trigger] event[i]).to_array() is Some
}

/// A `grid_scroll` call that the grid can carry out: a downward scroll of a
/// non-empty region has a count whose negation fits in `i64` and whose
/// first destination row fits in `usize`.
pub open spec fn scroll_call_ok(s: NvimStateView, call: ValueView) -> bool {
    match call.to_array() {
        None => true,
        Some(args) => {
            if args.len() >= 6 {
                let a = scroll_args(args);
                s.grids.contains_key(a.0) ==> {
                    let g = s.grids[a.0];
                    let t = min_usize(a.1, g.height);
                    let b = min_usize(a.2, g.height);
                    let l = min_usize(a.3, g.width);
                    let rt = min_usize(a.4, g.width);
                    (t < b && l < rt && a.5 < 0) ==> (a.5 > i64::MIN && t + (#[verifier::truncate]
                    ((-a.5) as usize)) <= usize::MAX)
                }
            } else {
                true
            }
        },
    }
}

/// Whether the event is named `grid_scroll`.
pub open spec fn is_scroll_event(event: Seq<ValueView>) -> bool {
    &&& event.len() > 0
    &&& event[0].to_str() matches Some(name)
    &&& redraw_kind(name) == RedrawKind::GridScroll
}

/// An event that does not ask a grid for a scroll it cannot carry out.
pub open spec fn redraw_ok(s: NvimStateView, event: Seq<ValueView>) -> bool {
    is_scroll_event(event) ==> forall|i: int|
        1 <= i < event.len() ==> scroll_call_ok(s, #[trigger] event[i])
}

/// A `grid_scroll` call that any grid can carry out: a downward count has
/// a negation that fits in `i64` and that, added to the region's top row,
/// fits in `usize`.
pub open spec fn scroll_call_safe(call: ValueView) -> bool {
    match call.to_array() {
        None => true,
        Some(args) => args.len() >= 6 ==> {
            let a = scroll_args(args);
            a.5 < 0 ==> (a.5 > i64::MIN && a.1 + (#[verifier::truncate] ((-a.5) as usize))
                <= usize::MAX)
        },
    }
}

/// An event that no state can refuse: it is no `grid_scroll`, or each of
/// its calls is safe.
pub open spec fn redraw_event_safe(event: Seq<ValueView>) -> bool {
    is_scroll_event(event) ==> forall|i: int|
        1 <= i < event.len() ==> scroll_call_safe(#[trigger] event[i])
}

/// A safe event can be applied to any state.
pub proof fn lemma_safe_event_ok(s: NvimStateView, event: Seq<ValueView>)
    requires
        redraw_event_safe(event),
    ensures
        redraw_ok(s, event),
{
    if is_scroll_event(event) {
        assert forall|i: int| 1 <= i < event.len() implies scroll_call_ok(s, #[trigger] event[i]) by {
            assert(scroll_call_safe(event[i]));
        }
    }
}

} // verus!

verus! {

/// Removes grid `id` from the state and hands it out.
fn take_grid(state: &mut NvimState, id: u64) -> (res: Option<Grid>)
    ensures
        match res {
            Some(g) => old(state)@.grids.contains_key(id) && g@ == old(state)@.grids[id],
            None => !old(state)@.grids.contains_key(id),
        },
        final(state)@ == (NvimStateView { grids: old(state)@.grids.remove(id), ..old(state)@ }),
{
    let res = state.grids.remove(&id);
    proof {
        assert(state@.grids =~= old(state)@.grids.remove(id));
    }
    res
}

/// Puts the grid `g` into the state under `id`.
fn put_grid(state: &mut NvimState, id: u64, g: Grid)
    ensures
        final(state)@ == with_grid(old(state)@, id, g@),
{
    let ghost gv = g@;
    state.grids.insert(id, g);
    proof {
        assert(state@.grids =~= old(state)@.grids.insert(id, gv));
    }
}

/// The value as a `u64`, or `d` when it is none.
fn arg_u64(v: &RpcValue, d: u64) -> (res: u64)
    ensures
        res == u64_or(v@, d),
{
    match v.as_u64() {
        Some(n) => n,
        None => d,
    }
}

fn do_grid_resize(state: &mut NvimState, args: &Vec<RpcValue>)
    requires
        old(state)@.wf(),
    ensures
        final(state)@ == apply_grid_resize(old(state)@, values_view(args@)),
        final(state)@.wf(),
{
    if args.len() >= 3 {
        let id = arg_u64(&args[0], 1);
        let w = #[verifier::truncate] (arg_u64(&args[1], 80) as usize);
        let h = #[verifier::truncate] (arg_u64(&args[2], 24) as usize);
        match take_grid(state, id) {
            Some(mut g) => {
                g.resize(w, h);
                put_grid(state, id, g);
                proof {
                    assert(state@.grids =~= apply_grid_resize(old(state)@, values_view(args@)).grids);
                }
            },
            None => {
                let g = Grid::new(id, w, h);
                put_grid(state, id, g);
                proof {
                    assert(state@.grids =~= apply_grid_resize(old(state)@, values_view(args@)).grids);
                }
            },
        }
    }
}

/// A colour argument: the new colour when the value is a non-negative `i64`.
fn arg_color(v: &RpcValue, current: u32) -> (res: u32)
    ensures
        res == color_arg(v@, current),
{
    match v.as_i64() {
        Some(c) => if c >= 0 {
            #[verifier::truncate] (c as u32)
        } else {
            current
        },
        None => current,
    }
}

fn do_default_colors(state: &mut NvimState, args: &Vec<RpcValue>)
    ensures
        final(state)@ == apply_default_colors(old(state)@, values_view(args@)),
{
    if args.len() >= 3 {
        state.default_fg = arg_color(&args[0], state.default_fg);
        state.default_bg = arg_color(&args[1], state.default_bg);
        state.default_sp = arg_color(&args[2], state.default_sp);
    }
}

fn hl_apply_entry(attr: HighlightAttr, key: &RpcValue, v: &RpcValue) -> (res: HighlightAttr)
    ensures
        res == hl_entry(attr, key@, v@),
{
    let mut attr = attr;
    if let Some(k) = key.as_str() {
        if str_eq(k, "foreground") {
            if let Some(c) = v.as_i64() {
                attr.foreground = Some(#[verifier::truncate] (c as u32));
            }
        } else if str_eq(k, "background") {
            if let Some(c) = v.as_i64() {
                attr.background = Some(#[verifier::truncate] (c as u32));
            }
        } else if str_eq(k, "special") {
            if let Some(c) = v.as_i64() {
                attr.special = Some(#[verifier::truncate] (c as u32));
            }
        } else if str_eq(k, "reverse") {
            attr.reverse = v.as_bool().unwrap_or(false);
        } else if str_eq(k, "italic") {
            attr.italic = v.as_bool().unwrap_or(false);
        } else if str_eq(k, "bold") {
            attr.bold = v.as_bool().unwrap_or(false);
        } else if str_eq(k, "underline") {
            attr.underline = v.as_bool().unwrap_or(false);
        } else if str_eq(k, "undercurl") {
            attr.undercurl = v.as_bool().unwrap_or(false);
        } else if str_eq(k, "strikethrough") {
            attr.strikethrough = v.as_bool().unwrap_or(false);
        } else if str_eq(k, "blend") {
            attr.blend = #[verifier::truncate] (arg_u64(v, 0) as u8);
        }
    }
    attr
}

fn do_hl_attr_define(state: &mut NvimState, args: &Vec<RpcValue>)
    ensures
        final(state)@ == apply_hl_attr_define(old(state)@, values_view(args@)),
{
    if args.len() >= 2 {
        let id = #[verifier::truncate] (arg_u64(&args[0], 0) as u32);
        let mut attr = HighlightAttr::default();
        if let Some(entries) = args[1].as_map() {
            let ghost ev = entries_view(entries@);
            let mut i: usize = 0;
            while i < entries.len()
                invariant
                    i <= entries@.len(),
                    ev == entries_view(entries@),
                    attr == hl_from_entries(ev.take(i as int)),
                decreases entries@.len() - i,
            {
                attr = hl_apply_entry(attr, &entries[i].0, &entries[i].1);
                proof {
                    assert(ev.take(i + 1).drop_last() =~= ev.take(i as int));
                }
                i = i + 1;
            }
            proof {
                assert(ev.take(entries@.len() as int) =~= ev);
            }
        }
        state.highlights.insert(id, attr);
    }
}

/// Applies one cell entry of a `grid_line` call to row `row` of `g`.
fn line_apply_entry(g: &mut Grid, row: usize, col: usize, hl: u32, entry: &RpcValue) -> (res: (
    usize,
    u32,
))
    requires
        old(g).wf(),
        row < old(g).height,
    ensures
        final(g).wf(),
        ({
            let step = line_step(old(g)@.cells[row as int], col as int, hl, entry@);
            &&& final(g)@ == (GridView {
                cells: old(g)@.cells.update(row as int, step.0),
                ..old(g)@
            })
            &&& res.0 == step.1
            &&& res.1 == step.2
        }),
{
    let info = match entry.as_array() {
        Some(a) => a,
        None => {
            proof {
                assert(old(g)@.cells.update(row as int, old(g)@.cells[row as int]) =~= old(g)@.cells);
            }
            return (col, hl);
        },
    };
    if info.len() == 0 {
        proof {
            assert(old(g)@.cells.update(row as int, old(g)@.cells[row as int]) =~= old(g)@.cells);
        }
        return (col, hl);
    }
    let text: &str = match info[0].as_str() {
        Some(t) => t,
        None => "",
    };
    proof {
        reveal_strlit("");
    }
    let hl2 = if info.len() >= 2 {
        #[verifier::truncate] (arg_u64(&info[1], 0) as u32)
    } else {
        hl
    };
    let repeat: usize = if info.len() >= 3 {
        #[verifier::truncate] (arg_u64(&info[2], 1) as usize)
    } else {
        1
    };
    let w = str_display_width(text);
    let cell = Cell::new(text, hl2, w);
    let next = g.put_cells(row, col, &cell, repeat);
    proof {
        assert(text@ == match values_view(info@)[0].to_str() {
            Some(t) => t,
            None => Seq::<char>::empty(),
        });
    }
    (next, hl2)
}

fn do_grid_line(state: &mut NvimState, args: &Vec<RpcValue>)
    requires
        old(state)@.wf(),
    ensures
        final(state)@ == apply_grid_line(old(state)@, values_view(args@)),
        final(state)@.wf(),
{
    if args.len() < 4 {
        return ;
    }
    let id = arg_u64(&args[0], 1);
    let row = #[verifier::truncate] (arg_u64(&args[1], 0) as usize);
    let col_start = #[verifier::truncate] (arg_u64(&args[2], 0) as usize);
    let entries = match args[3].as_array() {
        Some(c) => c,
        None => return ,
    };
    let mut g = match take_grid(state, id) {
        Some(g) => g,
        None => {
            proof {
                assert(state@.grids =~= old(state)@.grids);
            }
            return ;
        },
    };
    if row >= g.height {
        put_grid(state, id, g);
        proof {
            assert(state@.grids =~= old(state)@.grids);
        }
        return ;
    }
    let ghost g0 = g@;
    let ghost ev = values_view(entries@);
    let mut col = col_start;
    let mut hl: u32 = 0;
    let mut i: usize = 0;
    proof {
        assert(ev.take(0).len() == 0);
        assert(g0.cells.update(row as int, g0.cells[row as int]) =~= g0.cells);
    }
    while i < entries.len()
        invariant
            g.wf(),
            row < g.height,
            i <= entries@.len(),
            ev == values_view(entries@),
            g0.wf(),
            ({
                let acc = line_cells(g0.cells[row as int], col_start as int, 0, ev.take(i as int));
                &&& g@ == (GridView { cells: g0.cells.update(row as int, acc.0), ..g0 })
                &&& col == acc.1
                &&& hl == acc.2
            }),
        decreases entries@.len() - i,
    {
        let ghost before = g@;
        let r = line_apply_entry(&mut g, row, col, hl, &entries[i]);
        col = r.0;
        hl = r.1;
        proof {
            assert(ev.take(i + 1).drop_last() =~= ev.take(i as int));
            assert(g@.cells =~= g0.cells.update(
                row as int,
                line_cells(g0.cells[row as int], col_start as int, 0, ev.take(i + 1)).0,
            ));
        }
        i = i + 1;
    }
    proof {
        assert(ev.take(entries@.len() as int) =~= ev);
    }
    put_grid(state, id, g);
    proof {
        assert(state@.grids =~= apply_grid_line(old(state)@, values_view(args@)).grids);
    }
}

fn do_cursor_goto(state: &mut NvimState, args: &Vec<RpcValue>)
    requires
        old(state)@.wf(),
    ensures
        final(state)@ == apply_cursor_goto(old(state)@, values_view(args@)),
        final(state)@.wf(),
{
    if args.len() >= 3 {
        let id = arg_u64(&args[0], 1);
        let row = #[verifier::truncate] (arg_u64(&args[1], 0) as usize);
        let col = #[verifier::truncate] (arg_u64(&args[2], 0) as usize);
        state.active_grid = id;
        match take_grid(state, id) {
            Some(mut g) => {
                g.cursor_row = row;
                g.cursor_col = col;
                put_grid(state, id, g);
                proof {
                    assert(state@.grids =~= apply_cursor_goto(old(state)@, values_view(args@)).grids);
                }
            },
            None => {
                proof {
                    assert(state@.grids =~= old(state)@.grids);
                }
            },
        }
    }
}

fn do_grid_scroll(state: &mut NvimState, args: &Vec<RpcValue>)
    requires
        old(state)@.wf(),
        scroll_call_ok(old(state)@, ValueView::Array(values_view(args@))),
    ensures
        final(state)@ == apply_grid_scroll(old(state)@, values_view(args@)),
        final(state)@.wf(),
{
    if args.len() >= 6 {
        let id = arg_u64(&args[0], 1);
        let top = #[verifier::truncate] (arg_u64(&args[1], 0) as usize);
        let bot = #[verifier::truncate] (arg_u64(&args[2], 0) as usize);
        let left = #[verifier::truncate] (arg_u64(&args[3], 0) as usize);
        let right = #[verifier::truncate] (arg_u64(&args[4], 0) as usize);
        let rows = match args[5].as_i64() {
            Some(r) => r,
            None => 0,
        };
        match take_grid(state, id) {
            Some(mut g) => {
                g.scroll(top, bot, left, right, rows);
                put_grid(state, id, g);
                proof {
                    assert(state@.grids =~= apply_grid_scroll(old(state)@, values_view(args@)).grids);
                }
            },
            None => {
                proof {
                    assert(state@.grids =~= old(state)@.grids);
                }
            },
        }
    }
}

/// The grid that `grid_clear` and `grid_destroy` name.
fn target_grid_of(args: &Vec<RpcValue>) -> (res: u64)
    ensures
        res == target_grid(values_view(args@)),
{
    if args.len() > 0 {
        arg_u64(&args[0], 1)
    } else {
        1
    }
}

fn do_grid_clear(state: &mut NvimState, args: &Vec<RpcValue>)
    requires
        old(state)@.wf(),
    ensures
        final(state)@ == apply_grid_clear(old(state)@, values_view(args@)),
        final(state)@.wf(),
{
    let id = target_grid_of(args);
    match take_grid(state, id) {
        Some(mut g) => {
            g.clear();
            put_grid(state, id, g);
            proof {
                assert(state@.grids =~= apply_grid_clear(old(state)@, values_view(args@)).grids);
            }
        },
        None => {
            proof {
                assert(state@.grids =~= old(state)@.grids);
            }
        },
    }
}

fn do_grid_destroy(state: &mut NvimState, args: &Vec<RpcValue>)
    ensures
        final(state)@ == apply_grid_destroy(old(state)@, values_view(args@)),
{
    let id = target_grid_of(args);
    let _ = take_grid(state, id);
}

fn mode_apply_entry(m: &mut ModeInfo, key: &RpcValue, v: &RpcValue)
    ensures
        final(m)@ == mode_entry(old(m)@, key@, v@),
{
    if let Some(k) = key.as_str() {
        if str_eq(k, "name") {
            if let Some(t) = v.as_str() {
                m.name = String::from_str(t);
            }
        } else if str_eq(k, "cursor_shape") {
            if let Some(t) = v.as_str() {
                m.cursor_shape = String::from_str(t);
            }
        } else if str_eq(k, "cell_percentage") {
            m.cell_percentage = arg_u64(v, 100);
        } else if str_eq(k, "blinkwait") {
            m.blinkwait = arg_u64(v, 0);
        } else if str_eq(k, "blinkon") {
            m.blinkon = arg_u64(v, 0);
        } else if str_eq(k, "blinkoff") {
            m.blinkoff = arg_u64(v, 0);
        } else if str_eq(k, "hl_id") {
            m.hl_id = #[verifier::truncate] (arg_u64(v, 0) as u32);
        }
    }
}

fn do_mode_info_set(state: &mut NvimState, args: &Vec<RpcValue>)
    ensures
        final(state)@ == apply_mode_info_set(old(state)@, values_view(args@)),
{
    if args.len() >= 2 {
        if let Some(items) = args[1].as_array() {
            let ghost iv = values_view(items@);
            let mut list: Vec<ModeInfo> = Vec::new();
            let mut i: usize = 0;
            while i < items.len()
                invariant
                    i <= items@.len(),
                    iv == values_view(items@),
                    list@.map_values(|m: ModeInfo| m@) == modes_from_list(iv.take(i as int)),
                decreases items@.len() - i,
            {
                proof {
                    assert(iv.take(i + 1).drop_last() =~= iv.take(i as int));
                }
                if let Some(entries) = items[i].as_map() {
                    let ghost ev = entries_view(entries@);
                    let mut info = ModeInfo::default();
                    let mut j: usize = 0;
                    while j < entries.len()
                        invariant
                            j <= entries@.len(),
                            ev == entries_view(entries@),
                            info@ == mode_from_entries(ev.take(j as int)),
                        decreases entries@.len() - j,
                    {
                        mode_apply_entry(&mut info, &entries[j].0, &entries[j].1);
                        proof {
                            assert(ev.take(j + 1).drop_last() =~= ev.take(j as int));
                        }
                        j = j + 1;
                    }
                    proof {
                        assert(ev.take(entries@.len() as int) =~= ev);
                    }
                    let ghost prev = list@;
                    list.push(info);
                    proof {
                        assert(list@.map_values(|m: ModeInfo| m@) =~= prev.map_values(
                            |m: ModeInfo| m@,
                        ).push(info@));
                    }
                }
                i = i + 1;
            }
            proof {
                assert(iv.take(items@.len() as int) =~= iv);
            }
            state.mode_info = list;
        }
    }
}

fn do_mode_change(state: &mut NvimState, args: &Vec<RpcValue>)
    ensures
        final(state)@ == apply_mode_change(old(state)@, values_view(args@)),
{
    if args.len() >= 2 {
        if let Some(t) = args[0].as_str() {
            state.current_mode = String::from_str(t);
        }
        state.current_mode_idx = #[verifier::truncate] (arg_u64(&args[1], 0) as usize);
    }
}

fn do_set_title(state: &mut NvimState, args: &Vec<RpcValue>)
    ensures
        final(state)@ == apply_set_title(old(state)@, values_view(args@)),
{
    if args.len() > 0 {
        if let Some(t) = args[0].as_str() {
            state.title = String::from_str(t);
        }
    }
}

fn do_option_set(state: &mut NvimState, args: &Vec<RpcValue>)
    ensures
        final(state)@ == apply_option_set(old(state)@, values_view(args@)),
{
    if args.len() >= 2 {
        if let Some(name) = args[0].as_str() {
            if str_eq(name, "guifont") {
                if let Some(v) = args[1].as_str() {
                    state.guifont = String::from_str(v);
                }
            } else if str_eq(name, "linespace") {
                if let Some(v) = args[1].as_i64() {
                    state.linespace = v;
                }
            }
        }
    }
}

/// Applies one call (its argument list) of a redraw event of kind `kind`.
fn apply_call_args(state: &mut NvimState, kind: RedrawKind, args: &Vec<RpcValue>)
    requires
        old(state)@.wf(),
        kind == RedrawKind::GridScroll ==> scroll_call_ok(
            old(state)@,
            ValueView::Array(values_view(args@)),
        ),
    ensures
        final(state)@ == apply_call(old(state)@, kind, ValueView::Array(values_view(args@))),
        final(state)@.wf(),
{
    match kind {
        RedrawKind::GridResize => do_grid_resize(state, args),
        RedrawKind::DefaultColorsSet => do_default_colors(state, args),
        RedrawKind::HlAttrDefine => do_hl_attr_define(state, args),
        RedrawKind::GridLine => do_grid_line(state, args),
        RedrawKind::GridCursorGoto => do_cursor_goto(state, args),
        RedrawKind::GridScroll => do_grid_scroll(state, args),
        RedrawKind::GridClear => do_grid_clear(state, args),
        RedrawKind::GridDestroy => do_grid_destroy(state, args),
        RedrawKind::ModeInfoSet => do_mode_info_set(state, args),
        RedrawKind::ModeChange => do_mode_change(state, args),
        RedrawKind::SetTitle => do_set_title(state, args),
        RedrawKind::OptionSet => do_option_set(state, args),
        RedrawKind::Flush => {},
        RedrawKind::Other => {},
    }
}

/// Applies one redraw event (its name followed by its calls) to the state;
/// returns whether the event was a `flush` with at least one call, that is,
/// whether the screen should now be drawn.
pub fn handle_redraw_event(state: &mut NvimState, event: &[RpcValue]) -> (flush: bool)
    requires
        old(state)@.wf(),
        redraw_ok(old(state)@, values_view(event@)),
    ensures
        final(state)@ == redraw_state(old(state)@, values_view(event@)),
        flush == redraw_flushes(values_view(event@)),
        final(state)@.wf(),
{
    let ghost ev = values_view(event@);
    if event.len() == 0 {
        return false;
    }
    let name = match event[0].as_str() {
        Some(n) => n,
        None => return false,
    };
    let kind = redraw_kind_of(name);
    let ghost calls = ev.skip(1);
    let mut is_flush = false;
    let mut i: usize = 1;
    while i < event.len()
        invariant
            1 <= i <= event@.len(),
            ev == values_view(event@),
            calls == ev.skip(1),
            kind == redraw_kind(name@),
            ev[0].to_str() == Some(name@),
            state@.wf(),
            state@ == apply_calls(old(state)@, kind, calls.take(i - 1)),
            is_flush == (kind == RedrawKind::Flush && exists|j: int|
                1 <= j < i && (#[trigger] ev[j]).to_array() is Some),
            kind == RedrawKind::GridScroll ==> forall|j: int|
                1 <= j < ev.len() ==> scroll_call_ok(old(state)@, #[trigger] ev[j]),
        decreases event@.len() - i,
    {
        let ghost before = state@;
        proof {
            assert(calls.take(i as int).drop_last() =~= calls.take(i - 1));
            assert(calls.take(i as int).last() == ev[i as int]);
        }
        match event[i].as_array() {
            Some(args) => {
                proof {
                    if kind == RedrawKind::GridScroll {
                        lemma_scroll_ok_preserved(old(state)@, before, kind, calls.take(i - 1), ev[i as int]);
                    }
                }
                apply_call_args(state, kind, args);
                if kind == RedrawKind::Flush {
                    is_flush = true;
                }
            },
            None => {},
        }
        i = i + 1;
    }
    proof {
        assert(calls.take(event@.len() - 1) =~= calls);
        assert(ev.skip(1) == calls);
    }
    is_flush
}

/// Whether the `grid_scroll` call can be carried out on any grid.
fn scroll_call_is_safe(call: &RpcValue) -> (res: bool)
    ensures
        res == scroll_call_safe(call@),
{
    match call.as_array() {
        None => true,
        Some(args) => {
            if args.len() < 6 {
                return true;
            }
            let top = #[verifier::truncate] (arg_u64(&args[1], 0) as usize);
            let rows = match args[5].as_i64() {
                Some(r) => r,
                None => 0,
            };
            if rows >= 0 {
                true
            } else if rows == i64::MIN {
                false
            } else {
                let count = #[verifier::truncate] ((-rows) as usize);
                top <= usize::MAX - count
            }
        },
    }
}

/// Whether the redraw event can be applied to any state (see
/// `redraw_event_safe`); Neovim's own events always can.
pub fn is_safe_redraw_event(event: &[RpcValue]) -> (res: bool)
    ensures
        res == redraw_event_safe(values_view(event@)),
{
    let ghost ev = values_view(event@);
    if event.len() == 0 {
        return true;
    }
    let name = match event[0].as_str() {
        Some(n) => n,
        None => return true,
    };
    if redraw_kind_of(name) != RedrawKind::GridScroll {
        return true;
    }
    let mut i: usize = 1;
    while i < event.len()
        invariant
            1 <= i <= event@.len(),
            ev == values_view(event@),
            is_scroll_event(ev),
            forall|j: int| 1 <= j < i ==> scroll_call_safe(#[trigger] ev[j]),
        decreases event@.len() - i,
    {
        proof {
            assert(ev[i as int] == event@[i as int]@);
        }
        if !scroll_call_is_safe(&event[i]) {
            return false;
        }
        i = i + 1;
    }
    true
}

/// A scroll event keeps the set of grids and their sizes, so every call of
/// it can still be carried out after the earlier ones.
proof fn lemma_scroll_ok_preserved(
    s0: NvimStateView,
    s: NvimStateView,
    kind: RedrawKind,
    done: Seq<ValueView>,
    call: ValueView,
)
    requires
        kind == RedrawKind::GridScroll,
        s == apply_calls(s0, kind, done),
        scroll_call_ok(s0, call),
    ensures
        scroll_call_ok(s, call),
        s.grids.dom() == s0.grids.dom(),
        forall|k: u64|
            #[trigger] s.grids.contains_key(k) ==> s.grids[k].width == s0.grids[k].width
                && s.grids[k].height == s0.grids[k].height,
    decreases done.len(),
{
    if done.len() > 0 {
        let prev = apply_calls(s0, kind, done.drop_last());
        lemma_scroll_ok_preserved(s0, prev, kind, done.drop_last(), call);
        assert(s.grids.dom() =~= prev.grids.dom());
    }
}

} // verus!
