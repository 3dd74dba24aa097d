//! What the grid renderer decides before it draws: the content hash of a
//! row of cells, which cells are plain background, how a row is cut into
//! segments, the coloured spans of a row, and the cursor's look.
use crate::state::{Cell, CellView, Grid, HighlightAttr, NvimState};
use std::collections::HashMap;
use vstd::prelude::*;
use vstd::utf8::encode_utf8;

verus! {

broadcast use vstd::std_specs::hash::group_hash_axioms;

/// The FNV-1a offset basis.
pub const FNV_OFFSET: u64 = 0xcbf29ce484222325;

/// The FNV-1a prime.
pub const FNV_PRIME: u64 = 0x100000001b3;

/// One FNV-1a step: xor in `x`, multiply by the prime modulo 2^64.
pub open spec fn fnv_mix(h: u64, x: u64) -> u64 {
    (h ^ x).wrapping_mul(FNV_PRIME)
}

/// FNV-1a over the bytes `b`, starting from `h`.
pub open spec fn fnv_bytes(h: u64, b: Seq<u8>) -> u64
    decreases b.len(),
{
    if b.len() == 0 {
        h
    } else {
        fnv_mix(fnv_bytes(h, b.drop_last()), b.last() as u64)
    }
}

/// The 64-bit FNV-1a hash of a row of cells: for each cell its highlight
/// id, then the UTF-8 bytes of its text.
pub open spec fn fnv_cells(cells: Seq<CellView>) -> u64
    decreases cells.len(),
{
    if cells.len() == 0 {
        FNV_OFFSET
    } else {
        let c = cells.last();
        fnv_bytes(fnv_mix(fnv_cells(cells.drop_last()), c.hl_id as u64), encode_utf8(c.text))
    }
}

/// The content hash of a row of cells (see `fnv_cells`), by which shaped
/// lines are found again.
pub fn hash_cells(cells: &[Cell]) -> (res: u64)
    ensures
        res == fnv_cells(cells@.map_values(|c: Cell| c@)),
{
    let ghost cv = cells@.map_values(|c: Cell| c@);
    let mut hash: u64 = FNV_OFFSET;
    let mut i: usize = 0;
    while i < cells.len()
        invariant
            i <= cells@.len(),
            cv == cells@.map_values(|c: Cell| c@),
            hash == fnv_cells(cv.take(i as int)),
        decreases cells@.len() - i,
    {
        proof {
            assert(cv.take(i + 1).drop_last() =~= cv.take(i as int));
        }
        let cell = &cells[i];
        hash = (hash ^ (cell.hl_id as u64)).wrapping_mul(FNV_PRIME);
        let bytes = cell.text.as_str().as_bytes();
        let ghost start = hash;
        let mut j: usize = 0;
        while j < bytes.len()
            invariant
                j <= bytes@.len(),
                hash == fnv_bytes(start, bytes@.take(j as int)),
            decreases bytes@.len() - j,
        {
            proof {
                assert(bytes@.take(j + 1).drop_last() =~= bytes@.take(j as int));
            }
            hash = (hash ^ (bytes[j] as u64)).wrapping_mul(FNV_PRIME);
            j = j + 1;
        }
        proof {
            assert(bytes@.take(bytes@.len() as int) =~= bytes@);
        }
        i = i + 1;
    }
    proof {
        assert(cv.take(cells@.len() as int) =~= cv);
    }
    hash
}

/// A cell that needs no glyph and no background of its own: blank text
/// (one space or nothing) with no highlight, an undefined one, or one that
/// keeps the default background and has no reverse, underline or undercurl.
pub open spec fn is_plain_background(
    c: CellView,
    highlights: Map<u32, HighlightAttr>,
    default_bg: u32,
) -> bool {
    &&& (c.text == seq![' '] || c.text.len() == 0)
    &&& (c.hl_id == 0 || !highlights.contains_key(c.hl_id) || {
        let a = highlights[c.hl_id];
        &&& (match a.background {
            Some(b) => b,
            None => default_bg,
        }) == default_bg
        &&& !a.reverse
        &&& !a.underline
        &&& !a.undercurl
    })
}

/// Whether the cell is plain background (see `is_plain_background`).
pub fn is_default_space(cell: &Cell, state: &NvimState, default_bg: u32) -> (res: bool)
    ensures
        res == is_plain_background(cell@, state@.highlights, default_bg),
{
    let t = crate::text::chars_of(cell.text.as_str());
    if !(t.len() == 0 || (t.len() == 1 && t[0] == ' ')) {
        proof {
            if cell.text@ == seq![' '] {
                assert(t@[0] == ' ');
            }
        }
        return false;
    }
    proof {
        if t.len() == 1 {
            assert(t@ =~= seq![' ']);
        }
    }
    if cell.hl_id == 0 {
        return true;
    }
    match state.get_highlight(cell.hl_id) {
        Some(attr) => {
            let bg = match attr.background {
                Some(b) => b,
                None => default_bg,
            };
            !(bg != default_bg || attr.reverse || attr.underline || attr.undercurl)
        },
        None => true,
    }
}

/// How a row is drawn: nothing; one segment of the columns before `end`;
/// or a left segment of the columns before `left_end` (none when it is 0)
/// and a right segment of the columns `right_start..right_end`, with a gap
/// of at least four plain cells between them.
#[derive(Debug, Clone, Copy, PartialEq, Eq, Structural)]
pub enum RowLayout {
    Empty,
    Single { end: usize },
    Split { left_end: usize, right_start: usize, right_end: usize },
}

/// The last column before `n` whose cell is not plain background.
pub open spec fn last_content(row: Seq<CellView>, hl: Map<u32, HighlightAttr>, bg: u32, n: int) -> Option<int>
    decreases n,
{
    if n <= 0 {
        None
    } else if !is_plain_background(row[n - 1], hl, bg) {
        Some(n - 1)
    } else {
        last_content(row, hl, bg, n - 1)
    }
}

/// The first column of the run of non-plain cells that ends at `i`.
pub open spec fn run_start(row: Seq<CellView>, hl: Map<u32, HighlightAttr>, bg: u32, i: int) -> int
    decreases i,
{
    if i > 0 && !is_plain_background(row[i - 1], hl, bg) {
        run_start(row, hl, bg, i - 1)
    } else {
        i
    }
}

/// The first column of the run of plain cells that ends just before `i`.
pub open spec fn gap_start(row: Seq<CellView>, hl: Map<u32, HighlightAttr>, bg: u32, i: int) -> int
    decreases i,
{
    if i > 0 && is_plain_background(row[i - 1], hl, bg) {
        gap_start(row, hl, bg, i - 1)
    } else {
        i
    }
}

/// How a row is drawn (see `RowLayout`): everything up to the last non-plain
/// cell, split in two when the run of non-plain cells at the right end (a
/// scrollbar or sign column) is separated from the rest by four or more
/// plain cells.
pub open spec fn row_layout(row: Seq<CellView>, hl: Map<u32, HighlightAttr>, bg: u32) -> RowLayout {
    match last_content(row, hl, bg, row.len() as int) {
        None => RowLayout::Empty,
        Some(last) => {
            let rs = run_start(row, hl, bg, last);
            let probe = gap_start(row, hl, bg, rs);
            if rs - probe >= 4 {
                RowLayout::Split {
                    left_end: probe as usize,
                    right_start: rs as usize,
                    right_end: (last + 1) as usize,
                }
            } else {
                RowLayout::Single { end: (last + 1) as usize }
            }
        },
    }
}

/// How the row of cells is drawn (see `row_layout`).
pub fn layout_row(row: &[Cell], state: &NvimState) -> (res: RowLayout)
    ensures
        res == row_layout(row@.map_values(|c: Cell| c@), state@.highlights, state.default_bg),
{
    let ghost rv = row@.map_values(|c: Cell| c@);
    let ghost hl = state@.highlights;
    let bg = state.default_bg;
    let mut n = row.len();
    while n > 0 && is_default_space(&row[n - 1], state, bg)
        invariant
            n <= row@.len(),
            rv == row@.map_values(|c: Cell| c@),
            hl == state@.highlights,
            bg == state.default_bg,
            last_content(rv, hl, bg, n as int) == last_content(rv, hl, bg, row@.len() as int),
        decreases n,
    {
        n = n - 1;
    }
    if n == 0 {
        return RowLayout::Empty;
    }
    let last = n - 1;
    let mut rs = last;
    while rs > 0 && !is_default_space(&row[rs - 1], state, bg)
        invariant
            rs <= last,
            last < row@.len(),
            rv == row@.map_values(|c: Cell| c@),
            hl == state@.highlights,
            bg == state.default_bg,
            run_start(rv, hl, bg, rs as int) == run_start(rv, hl, bg, last as int),
        decreases rs,
    {
        rs = rs - 1;
    }
    let mut probe = rs;
    let mut gap: usize = 0;
    while probe > 0 && is_default_space(&row[probe - 1], state, bg)
        invariant
            probe <= rs,
            rs < row@.len(),
            gap == rs - probe,
            rv == row@.map_values(|c: Cell| c@),
            hl == state@.highlights,
            bg == state.default_bg,
            gap_start(rv, hl, bg, probe as int) == gap_start(rv, hl, bg, rs as int),
        decreases probe,
    {
        gap = gap + 1;
        probe = probe - 1;
    }
    if gap >= 4 {
        RowLayout::Split { left_end: probe, right_start: rs, right_end: last + 1 }
    } else {
        RowLayout::Single { end: last + 1 }
    }
}


/// The abstract content of a span.
pub struct SpanView {
    pub text: Seq<char>,
    pub fg: u32,
    pub bg: u32,
    pub bold: bool,
    pub italic: bool,
    pub underline: bool,
    pub is_cursor: bool,
}

/// A run of neighbouring cells drawn with the same colours and styles.
#[derive(Debug)]
pub struct CellSpan {
    pub text: String,
    pub fg: u32,
    pub bg: u32,
    pub bold: bool,
    pub italic: bool,
    pub underline: bool,
    pub is_cursor: bool,
}

impl View for CellSpan {
    type V = SpanView;

    open spec fn view(&self) -> SpanView {
        SpanView {
            text: self.text@,
            fg: self.fg,
            bg: self.bg,
            bold: self.bold,
            italic: self.italic,
            underline: self.underline,
            is_cursor: self.is_cursor,
        }
    }
}

/// The highlight of a cell: the defined one, or the plain highlight.
pub open spec fn highlight_of(highlights: Map<u32, HighlightAttr>, id: u32) -> HighlightAttr {
    if highlights.contains_key(id) {
        highlights[id]
    } else {
        crate::state::plain_highlight()
    }
}

/// The (foreground, background) colours of a cell: the highlight's colours
/// or the defaults, swapped for reverse video or the cursor; a cursor that
/// would show the default background is drawn black on white.
pub open spec fn cell_colors(a: HighlightAttr, is_cursor: bool, dfg: u32, dbg: u32) -> (u32, u32) {
    let fg = match a.foreground {
        Some(c) => c,
        None => dfg,
    };
    let bg = match a.background {
        Some(c) => c,
        None => dbg,
    };
    if a.reverse || is_cursor {
        if is_cursor && fg == dbg {
            (0x000000, 0xffffff)
        } else {
            (bg, fg)
        }
    } else {
        (fg, bg)
    }
}

/// A row's spans after the next cell: a cell that is the empty right half
/// of a double-width character is skipped, an empty cell shows a space,
/// and a cell joins the span before it when neither is the cursor and
/// colours, bold, italic and underline agree.
pub open spec fn span_step(
    prev: Seq<SpanView>,
    cell: CellView,
    is_cursor: bool,
    highlights: Map<u32, HighlightAttr>,
    dfg: u32,
    dbg: u32,
) -> Seq<SpanView> {
    if cell.width == 0 && cell.text.len() == 0 {
        prev
    } else {
        let a = highlight_of(highlights, cell.hl_id);
        let colors = cell_colors(a, is_cursor, dfg, dbg);
        let text = if cell.text.len() == 0 {
            seq![' ']
        } else {
            cell.text
        };
        if prev.len() > 0 && !is_cursor && !prev.last().is_cursor && prev.last().fg == colors.0
            && prev.last().bg == colors.1 && prev.last().bold == a.bold && prev.last().italic
            == a.italic && prev.last().underline == a.underline {
            prev.update(prev.len() - 1, SpanView { text: prev.last().text + text, ..prev.last() })
        } else {
            prev.push(
                SpanView {
                    text,
                    fg: colors.0,
                    bg: colors.1,
                    bold: a.bold,
                    italic: a.italic,
                    underline: a.underline,
                    is_cursor,
                },
            )
        }
    }
}

/// The spans of the first `n` cells of a row, the cursor being at column
/// `cursor_col` if any (see `span_step`).
pub open spec fn spans_upto(
    row: Seq<CellView>,
    n: int,
    cursor_col: Option<int>,
    highlights: Map<u32, HighlightAttr>,
    dfg: u32,
    dbg: u32,
) -> Seq<SpanView>
    decreases n,
{
    if n <= 0 {
        Seq::empty()
    } else {
        span_step(
            spans_upto(row, n - 1, cursor_col, highlights, dfg, dbg),
            row[n - 1],
            cursor_col == Some(n - 1),
            highlights,
            dfg,
            dbg,
        )
    }
}

/// The spans of row `r` of the grid (see `spans_upto`); the cursor is in
/// this row when the grid's cursor row is `r`.
pub fn row_spans(state: &NvimState, grid: &Grid, r: usize) -> (res: Vec<CellSpan>)
    requires
        r < grid.cells@.len(),
    ensures
        res@.map_values(|s: CellSpan| s@) == spans_upto(
            grid@.cells[r as int],
            grid@.cells[r as int].len() as int,
            if grid.cursor_row == r {
                Some(grid.cursor_col as int)
            } else {
                None
            },
            state@.highlights,
            state.default_fg,
            state.default_bg,
        ),
{
    let row = &grid.cells[r];
    let cc: Option<usize> = if grid.cursor_row == r {
        Some(grid.cursor_col)
    } else {
        None
    };
    proof {
        assert(grid@.cells[r as int] == crate::state::row_view(grid.cells@[r as int]));
    }
    spans_of_row(row, cc, state)
}

/// The spans of the cells of `row`, the cursor being at column `cc` if any.
fn spans_of_row(row: &Vec<Cell>, cc: Option<usize>, state: &NvimState) -> (res: Vec<CellSpan>)
    ensures
        res@.map_values(|s: CellSpan| s@) == spans_upto(
            row@.map_values(|c: Cell| c@),
            row@.len() as int,
            match cc {
                Some(c) => Some(c as int),
                None => None,
            },
            state@.highlights,
            state.default_fg,
            state.default_bg,
        ),
{
    let ghost rv = row@.map_values(|c: Cell| c@);
    let ghost cci = match cc {
        Some(c) => Some(c as int),
        None => None,
    };
    let dfg = state.default_fg;
    let dbg = state.default_bg;
    let mut spans: Vec<CellSpan> = Vec::new();
    let mut i: usize = 0;
    while i < row.len()
        invariant
            i <= row@.len(),
            rv == row@.map_values(|c: Cell| c@),
            dfg == state.default_fg,
            dbg == state.default_bg,
            cci == (match cc {
                Some(c) => Some(c as int),
                None => None,
            }),
            spans@.map_values(|s: CellSpan| s@) == spans_upto(
                rv,
                i as int,
                cci,
                state@.highlights,
                dfg,
                dbg,
            ),
        decreases row@.len() - i,
    {
        let cell = &row[i];
        proof {
            assert(rv[i as int] == cell@);
        }
        let is_cursor = match cc {
            Some(c) => i == c,
            None => false,
        };
        push_cell_span(&mut spans, cell, is_cursor, state);
        i = i + 1;
    }
    spans
}


/// Adds the cell to the spans (see `span_step`).
fn push_cell_span(spans: &mut Vec<CellSpan>, cell: &Cell, is_cursor: bool, state: &NvimState)
    ensures
        final(spans)@.map_values(|s: CellSpan| s@) == span_step(
            old(spans)@.map_values(|s: CellSpan| s@),
            cell@,
            is_cursor,
            state@.highlights,
            state.default_fg,
            state.default_bg,
        ),
{
    let ghost prev = spans@.map_values(|s: CellSpan| s@);
    if cell.width == 0 && cell.text.as_str().unicode_len() == 0 {
        return ;
    }
    let attr = match state.get_highlight(cell.hl_id) {
        Some(a) => *a,
        None => HighlightAttr::default(),
    };
    assert(attr == highlight_of(state@.highlights, cell.hl_id));
    let colors = colors_of(&attr, is_cursor, state.default_fg, state.default_bg);
    let text = span_text(cell);
    let n = spans.len();
    let merge = n > 0 && !is_cursor && !spans[n - 1].is_cursor && spans[n - 1].fg == colors.0
        && spans[n - 1].bg == colors.1 && spans[n - 1].bold == attr.bold && spans[n - 1].italic
        == attr.italic && spans[n - 1].underline == attr.underline;
    proof {
        if n > 0 {
            assert(prev.last() == spans@[n - 1]@);
        }
    }
    if merge {
        let mut last = spans.pop().unwrap();
        last.text.append(text.as_str());
        spans.push(last);
        proof {
            assert(spans@.map_values(|s: CellSpan| s@) =~= prev.update(
                prev.len() - 1,
                SpanView { text: prev.last().text + text@, ..prev.last() },
            ));
        }
    } else {
        let ghost tv = text@;
        spans.push(
            CellSpan {
                text,
                fg: colors.0,
                bg: colors.1,
                bold: attr.bold,
                italic: attr.italic,
                underline: attr.underline,
                is_cursor,
            },
        );
        proof {
            assert(spans@.map_values(|s: CellSpan| s@) =~= prev.push(
                SpanView {
                    text: tv,
                    fg: colors.0,
                    bg: colors.1,
                    bold: attr.bold,
                    italic: attr.italic,
                    underline: attr.underline,
                    is_cursor,
                },
            ));
        }
    }
}

/// The colours of a cell (see `cell_colors`).
fn colors_of(a: &HighlightAttr, is_cursor: bool, dfg: u32, dbg: u32) -> (res: (u32, u32))
    ensures
        res == cell_colors(*a, is_cursor, dfg, dbg),
{
    let fg = match a.foreground {
        Some(c) => c,
        None => dfg,
    };
    let bg = match a.background {
        Some(c) => c,
        None => dbg,
    };
    if a.reverse || is_cursor {
        if is_cursor && fg == dbg {
            (0x000000, 0xffffff)
        } else {
            (bg, fg)
        }
    } else {
        (fg, bg)
    }
}

/// The text a cell shows: its own, or a space when it is empty.
fn span_text(cell: &Cell) -> (res: String)
    ensures
        res@ == (if cell.text@.len() == 0 {
            seq![' ']
        } else {
            cell.text@
        }),
{
    if cell.text.as_str().unicode_len() == 0 {
        let s = String::from_str(" ");
        proof {
            reveal_strlit(" ");
            assert(s@ =~= seq![' ']);
        }
        s
    } else {
        cell.text.clone()
    }
}

/// The cursor's shape in the current mode: the mode's `cursor_shape`, or
/// "block" when the mode is not described.
pub fn cursor_shape(state: &NvimState) -> (res: &str)
    ensures
        res@ == (if state.current_mode_idx < state@.mode_info.len() {
            state@.mode_info[state.current_mode_idx as int].cursor_shape
        } else {
            "block"@
        }),
{
    if state.current_mode_idx < state.mode_info.len() {
        state.mode_info[state.current_mode_idx].cursor_shape.as_str()
    } else {
        "block"
    }
}

/// The text and width (in cells) that the block cursor at (`row`, `col`)
/// shows: the cell's text, a space when it is empty or there is no cell,
/// and the cell's width but at least 1.
pub fn cursor_cell(grid: &Grid, row: usize, col: usize) -> (res: (&str, usize))
    ensures
        ({
            let has = row < grid.cells@.len() && col < grid.cells@[row as int]@.len();
            let c = grid.cells@[row as int]@[col as int]@;
            &&& res.0@ == (if has && c.text.len() > 0 {
                c.text
            } else {
                " "@
            })
            &&& res.1 == (if has && c.width > 1 {
                c.width
            } else {
                1
            })
        }),
{
    match grid.get_cell(row, col) {
        Some(c) => {
            let t: &str = if c.text.as_str().unicode_len() == 0 {
                " "
            } else {
                c.text.as_str()
            };
            let w = if c.width > 1 {
                c.width
            } else {
                1
            };
            (t, w)
        },
        None => (" ", 1),
    }
}

/// The number of shaped lines the content cache holds before it starts over.
pub const CONTENT_CACHE_LIMIT: usize = 4096;

/// The renderer's memory across frames: one cached entry `R` per screen row
/// with the row version it was made from, the last cursor position drawn,
/// the grid size the rows were made for, and shaped lines `S` by content
/// hash, so that rows seen before need not be shaped again.
pub struct GridRenderCache<R, S> {
    pub rows: Vec<Option<R>>,
    pub row_versions: Vec<u32>,
    pub last_cursor_row: usize,
    pub last_cursor_col: usize,
    pub cached_width: usize,
    pub cached_height: usize,
    pub content_cache: HashMap<u64, S>,
}

/// The cached rows after `GridRenderCache::scroll(top, bot, rows)` on `n`
/// rows: within `top..bot` (clamped to `n`) the entries move up (positive
/// `rows`) or down (negative) by the count, and the rows left behind are
/// emptied; a count as large as the region empties all of it.
pub open spec fn scrolled_entry<R>(
    old_rows: Seq<Option<R>>,
    top: int,
    bot: int,
    rows: i64,
    r: int,
) -> Option<R> {
    if top <= r < bot {
        if rows > 0 {
            let count = rows as int;
            if count >= bot - top || r >= bot - count {
                None
            } else {
                old_rows[r + count]
            }
        } else {
            let count = -(rows as int);
            if count >= bot - top || r < top + count {
                None
            } else {
                old_rows[r - count]
            }
        }
    } else {
        old_rows[r]
    }
}

/// The row versions after the same scroll: moved along with the rows, 0
/// for the emptied rows.
pub open spec fn scrolled_version(old_v: Seq<u32>, top: int, bot: int, rows: i64, r: int) -> u32 {
    if top <= r < bot {
        if rows > 0 {
            let count = rows as int;
            if count >= bot - top || r >= bot - count {
                0
            } else {
                old_v[r + count]
            }
        } else {
            let count = -(rows as int);
            if count >= bot - top || r < top + count {
                0
            } else {
                old_v[r - count]
            }
        }
    } else {
        old_v[r]
    }
}

/// Whether a cached row must be shaped again for grid version `v`: its
/// cached version (0 when the cache has no such row) differs, or it holds no
/// entry.
pub open spec fn row_dirty<R>(rows: Seq<Option<R>>, versions: Seq<u32>, row: int, v: u32) -> bool {
    (if 0 <= row < versions.len() {
        versions[row]
    } else {
        0
    }) != v || !(0 <= row < rows.len() && rows[row] is Some)
}

/// The grid's version of row `i`: 0 past the end of `grid_versions`.
pub open spec fn version_at(grid_versions: Seq<u32>, i: int) -> u32 {
    if 0 <= i < grid_versions.len() {
        grid_versions[i]
    } else {
        0
    }
}

/// The dirty rows among the first `n`, in order.
pub open spec fn dirty_upto<R>(rows: Seq<Option<R>>, versions: Seq<u32>, grid_versions: Seq<u32>, n: int) -> Seq<
    usize,
>
    decreases n,
{
    if n <= 0 {
        Seq::empty()
    } else {
        let prev = dirty_upto(rows, versions, grid_versions, n - 1);
        if row_dirty(rows, versions, n - 1, version_at(grid_versions, n - 1)) {
            prev.push((n - 1) as usize)
        } else {
            prev
        }
    }
}

impl<R, S> GridRenderCache<R, S> {
    /// Every row has its version.
    pub open spec fn wf(&self) -> bool {
        self.rows@.len() == self.row_versions@.len()
    }

    /// An empty cache: no rows, no size, no cursor drawn yet.
    pub fn new() -> (res: Self)
        ensures
            res.wf(),
            res.rows@.len() == 0,
            res.last_cursor_row == usize::MAX,
            res.last_cursor_col == usize::MAX,
            res.cached_width == 0,
            res.cached_height == 0,
            res.content_cache@ == Map::<u64, S>::empty(),
    {
        GridRenderCache {
            rows: Vec::new(),
            row_versions: Vec::new(),
            last_cursor_row: usize::MAX,
            last_cursor_col: usize::MAX,
            cached_width: 0,
            cached_height: 0,
            content_cache: HashMap::new(),
        }
    }

    /// Forgets every cached row and shaped line (after a font change).
    pub fn invalidate_all(&mut self)
        ensures
            final(self).wf(),
            final(self).rows@.len() == 0,
            final(self).content_cache@ == Map::<u64, S>::empty(),
            final(self).cached_width == old(self).cached_width,
            final(self).cached_height == old(self).cached_height,
            final(self).last_cursor_row == old(self).last_cursor_row,
            final(self).last_cursor_col == old(self).last_cursor_col,
    {
        self.rows.clear();
        self.row_versions.clear();
        self.content_cache.clear();
    }

    /// Makes the cache fit a `width` x `height` grid: when the size changed,
    /// every row is emptied (with version 0) and the shaped lines forgotten.
    pub fn check_dimensions(&mut self, width: usize, height: usize)
        ensures
            final(self).cached_width == width,
            final(self).cached_height == height,
            final(self).last_cursor_row == old(self).last_cursor_row,
            final(self).last_cursor_col == old(self).last_cursor_col,
            old(self).cached_width != width || old(self).cached_height != height ==> {
                &&& final(self).rows@ == Seq::new(height as nat, |i: int| None::<R>)
                &&& final(self).row_versions@ == Seq::new(height as nat, |i: int| 0u32)
                &&& final(self).content_cache@ == Map::<u64, S>::empty()
            },
            old(self).cached_width == width && old(self).cached_height == height ==> {
                &&& final(self).rows@ == old(self).rows@
                &&& final(self).row_versions@ == old(self).row_versions@
                &&& final(self).content_cache@ == old(self).content_cache@
            },
            old(self).wf() ==> final(self).wf(),
            old(self).cached_width != width || old(self).cached_height != height ==> final(self).wf(),
    {
        if self.cached_width != width || self.cached_height != height {
            let mut rows: Vec<Option<R>> = Vec::new();
            let mut versions: Vec<u32> = Vec::new();
            let mut i: usize = 0;
            while i < height
                invariant
                    i <= height,
                    rows@ == Seq::new(i as nat, |j: int| None::<R>),
                    versions@ == Seq::new(i as nat, |j: int| 0u32),
                decreases height - i,
            {
                rows.push(None);
                versions.push(0);
                i = i + 1;
                assert(rows@ =~= Seq::new(i as nat, |j: int| None::<R>));
                assert(versions@ =~= Seq::new(i as nat, |j: int| 0u32));
            }
            self.cached_width = width;
            self.cached_height = height;
            self.rows = rows;
            self.row_versions = versions;
            self.content_cache.clear();
        }
    }

    /// Empties row `r` (version 0).
    fn empty_row(&mut self, r: usize)
        requires
            old(self).wf(),
            r < old(self).rows@.len(),
        ensures
            final(self).wf(),
            final(self).rows@ == old(self).rows@.update(r as int, None),
            final(self).row_versions@ == old(self).row_versions@.update(r as int, 0),
            final(self).content_cache == old(self).content_cache,
            final(self).last_cursor_row == old(self).last_cursor_row,
            final(self).last_cursor_col == old(self).last_cursor_col,
            final(self).cached_width == old(self).cached_width,
            final(self).cached_height == old(self).cached_height,
    {
        self.rows.set(r, None);
        self.row_versions.set(r, 0);
    }

    /// Moves the entry and version of row `src` to row `dst`, leaving `src` empty.
    fn move_row(&mut self, dst: usize, src: usize)
        requires
            old(self).wf(),
            dst < old(self).rows@.len(),
            src < old(self).rows@.len(),
            dst != src,
        ensures
            final(self).wf(),
            final(self).rows@ == old(self).rows@.update(src as int, None).update(
                dst as int,
                old(self).rows@[src as int],
            ),
            final(self).row_versions@ == old(self).row_versions@.update(
                dst as int,
                old(self).row_versions@[src as int],
            ),
            final(self).content_cache == old(self).content_cache,
            final(self).last_cursor_row == old(self).last_cursor_row,
            final(self).last_cursor_col == old(self).last_cursor_col,
            final(self).cached_width == old(self).cached_width,
            final(self).cached_height == old(self).cached_height,
    {
        let mut tmp: Option<R> = None;
        self.rows.set_and_swap(src, &mut tmp);
        self.rows.set(dst, tmp);
        let v = self.row_versions[src];
        self.row_versions.set(dst, v);
    }

    /// Shifts the cached rows `top..bot` by `rows` rows (positive: up,
    /// negative: down) after a full-width `grid_scroll`, so that rows that
    /// stay on screen keep their shaped lines (see `scrolled_entry` and
    /// `scrolled_version`).
    pub fn scroll(&mut self, top: usize, bot: usize, rows: i64)
        requires
            old(self).wf(),
            rows > i64::MIN,
        ensures
            final(self).wf(),
            final(self).rows@.len() == old(self).rows@.len(),
            ({
                let n = old(self).rows@.len() as int;
                let t = if top < n {
                    top as int
                } else {
                    n
                };
                let b = if bot < n {
                    bot as int
                } else {
                    n
                };
                &&& forall|r: int|
                    0 <= r < n ==> #[trigger] final(self).rows@[r] == (if t < b && rows != 0 {
                        scrolled_entry(old(self).rows@, t, b, rows, r)
                    } else {
                        old(self).rows@[r]
                    })
                &&& forall|r: int|
                    0 <= r < n ==> #[trigger] final(self).row_versions@[r] == (if t < b && rows
                        != 0 {
                        scrolled_version(old(self).row_versions@, t, b, rows, r)
                    } else {
                        old(self).row_versions@[r]
                    })
            }),
            final(self).content_cache == old(self).content_cache,
            final(self).last_cursor_row == old(self).last_cursor_row,
            final(self).last_cursor_col == old(self).last_cursor_col,
            final(self).cached_width == old(self).cached_width,
            final(self).cached_height == old(self).cached_height,
    {
        let n = self.rows.len();
        let top = if top < n {
            top
        } else {
            n
        };
        let bot = if bot < n {
            bot
        } else {
            n
        };
        if top >= bot || rows == 0 {
            return ;
        }
        let ghost old_rows = self.rows@;
        let ghost old_v = self.row_versions@;
        let count: u64 = if rows > 0 {
            rows as u64
        } else {
            (-rows) as u64
        };
        let span = bot - top;
        if count >= span as u64 {
            let mut r = top;
            while r < bot
                invariant
                    self.wf(),
                    top <= r <= bot <= n,
                    n == self.rows@.len(),
                    old_rows.len() == n,
                    old_v.len() == n,
                    forall|i: int|
                        0 <= i < n ==> #[trigger] self.rows@[i] == (if top <= i < r {
                            None
                        } else {
                            old_rows[i]
                        }),
                    forall|i: int|
                        0 <= i < n ==> #[trigger] self.row_versions@[i] == (if top <= i < r {
                            0
                        } else {
                            old_v[i]
                        }),
                    self.content_cache == old(self).content_cache,
                    self.last_cursor_row == old(self).last_cursor_row,
                    self.last_cursor_col == old(self).last_cursor_col,
                    self.cached_width == old(self).cached_width,
                    self.cached_height == old(self).cached_height,
                decreases bot - r,
            {
                self.empty_row(r);
                r = r + 1;
            }
            return ;
        }
        let count = count as usize;
        let valid = span - count;
        if rows > 0 {
            let mut i: usize = 0;
            while i < valid
                invariant
                    self.wf(),
                    rows > 0,
                    count == rows as int,
                    valid == bot - top - count,
                    0 < count,
                    top + count + valid == bot,
                    i <= valid,
                    bot <= n,
                    n == self.rows@.len(),
                    old_rows.len() == n,
                    old_v.len() == n,
                    forall|k: int|
                        0 <= k < n ==> #[trigger] self.rows@[k] == (if top <= k < top + i {
                            old_rows[k + count]
                        } else if top + count <= k < top + count + i {
                            None
                        } else {
                            old_rows[k]
                        }),
                    forall|k: int|
                        0 <= k < n ==> #[trigger] self.row_versions@[k] == (if top <= k < top + i {
                            old_v[k + count]
                        } else {
                            old_v[k]
                        }),
                    self.content_cache == old(self).content_cache,
                    self.last_cursor_row == old(self).last_cursor_row,
                    self.last_cursor_col == old(self).last_cursor_col,
                    self.cached_width == old(self).cached_width,
                    self.cached_height == old(self).cached_height,
                decreases valid - i,
            {
                self.move_row(top + i, top + count + i);
                i = i + 1;
            }
            let mut r = bot - count;
            while r < bot
                invariant
                    self.wf(),
                    rows > 0,
                    count == rows as int,
                    valid == bot - top - count,
                    0 < count,
                    top + count + valid == bot,
                    bot - count <= r <= bot <= n,
                    n == self.rows@.len(),
                    old_rows.len() == n,
                    old_v.len() == n,
                    forall|k: int|
                        0 <= k < n ==> #[trigger] self.rows@[k] == (if top <= k < top + valid {
                            old_rows[k + count]
                        } else if top + valid <= k < r {
                            None
                        } else if top + count <= k < bot {
                            None
                        } else {
                            old_rows[k]
                        }),
                    forall|k: int|
                        0 <= k < n ==> #[trigger] self.row_versions@[k] == (if top <= k < top
                            + valid {
                            old_v[k + count]
                        } else if top + valid <= k < r {
                            0
                        } else {
                            old_v[k]
                        }),
                    self.content_cache == old(self).content_cache,
                    self.last_cursor_row == old(self).last_cursor_row,
                    self.last_cursor_col == old(self).last_cursor_col,
                    self.cached_width == old(self).cached_width,
                    self.cached_height == old(self).cached_height,
                decreases bot - r,
            {
                self.empty_row(r);
                r = r + 1;
            }
        } else {
            let mut i: usize = valid;
            while i > 0
                invariant
                    self.wf(),
                    rows < 0,
                    count == -(rows as int),
                    valid == bot - top - count,
                    0 < count,
                    top + count + valid == bot,
                    i <= valid,
                    bot <= n,
                    n == self.rows@.len(),
                    old_rows.len() == n,
                    old_v.len() == n,
                    forall|k: int|
                        0 <= k < n ==> #[trigger] self.rows@[k] == (if top + count + i <= k < bot {
                            old_rows[k - count]
                        } else if top + i <= k < top + valid {
                            None
                        } else {
                            old_rows[k]
                        }),
                    forall|k: int|
                        0 <= k < n ==> #[trigger] self.row_versions@[k] == (if top + count + i <= k
                            < bot {
                            old_v[k - count]
                        } else {
                            old_v[k]
                        }),
                    self.content_cache == old(self).content_cache,
                    self.last_cursor_row == old(self).last_cursor_row,
                    self.last_cursor_col == old(self).last_cursor_col,
                    self.cached_width == old(self).cached_width,
                    self.cached_height == old(self).cached_height,
                decreases i,
            {
                i = i - 1;
                self.move_row(top + count + i, top + i);
            }
            let mut r = top;
            while r < top + count
                invariant
                    self.wf(),
                    rows < 0,
                    count == -(rows as int),
                    valid == bot - top - count,
                    0 < count,
                    top + count + valid == bot,
                    top <= r <= top + count,
                    bot <= n,
                    n == self.rows@.len(),
                    old_rows.len() == n,
                    old_v.len() == n,
                    forall|k: int|
                        0 <= k < n ==> #[trigger] self.rows@[k] == (if top + count <= k < bot {
                            old_rows[k - count]
                        } else if top <= k < r || top <= k < top + valid {
                            None
                        } else {
                            old_rows[k]
                        }),
                    forall|k: int|
                        0 <= k < n ==> #[trigger] self.row_versions@[k] == (if top + count <= k
                            < bot {
                            old_v[k - count]
                        } else if top <= k < r {
                            0
                        } else {
                            old_v[k]
                        }),
                    self.content_cache == old(self).content_cache,
                    self.last_cursor_row == old(self).last_cursor_row,
                    self.last_cursor_col == old(self).last_cursor_col,
                    self.cached_width == old(self).cached_width,
                    self.cached_height == old(self).cached_height,
                decreases top + count - r,
            {
                self.empty_row(r);
                r = r + 1;
            }
        }
    }

    /// Empties the cached rows `top..bot` (as far as there are rows), after
    /// a scroll of part of the width that the cache cannot follow.
    pub fn invalidate_rows(&mut self, top: usize, bot: usize)
        requires
            old(self).wf(),
        ensures
            final(self).wf(),
            final(self).rows@.len() == old(self).rows@.len(),
            forall|r: int|
                0 <= r < old(self).rows@.len() ==> #[trigger] final(self).rows@[r] == (if top <= r
                    < bot {
                    None
                } else {
                    old(self).rows@[r]
                }),
            forall|r: int|
                0 <= r < old(self).rows@.len() ==> #[trigger] final(self).row_versions@[r] == (
                if top <= r < bot {
                    0
                } else {
                    old(self).row_versions@[r]
                }),
            final(self).content_cache == old(self).content_cache,
            final(self).last_cursor_row == old(self).last_cursor_row,
            final(self).last_cursor_col == old(self).last_cursor_col,
            final(self).cached_width == old(self).cached_width,
            final(self).cached_height == old(self).cached_height,
    {
        let n = self.rows.len();
        let end = if bot < n {
            bot
        } else {
            n
        };
        let ghost old_rows = self.rows@;
        let ghost old_v = self.row_versions@;
        let mut r = top;
        while r < end
            invariant
                self.wf(),
                n == self.rows@.len(),
                end <= n,
                end == (if bot < n { bot } else { n }),
                top <= r,
                r <= end || r == top,
                old_rows.len() == n,
                old_v.len() == n,
                forall|i: int|
                    0 <= i < n ==> #[trigger] self.rows@[i] == (if top <= i < r {
                        None
                    } else {
                        old_rows[i]
                    }),
                forall|i: int|
                    0 <= i < n ==> #[trigger] self.row_versions@[i] == (if top <= i < r {
                        0
                    } else {
                        old_v[i]
                    }),
                self.content_cache == old(self).content_cache,
                self.last_cursor_row == old(self).last_cursor_row,
                self.last_cursor_col == old(self).last_cursor_col,
                self.cached_width == old(self).cached_width,
                self.cached_height == old(self).cached_height,
            decreases end - r,
        {
            self.empty_row(r);
            r = r + 1;
        }
    }

    /// Follows a `grid_scroll` of the region `top..bot`, `left..right` of a
    /// grid `grid_width` columns wide: a scroll of the full width (up to the
    /// last two columns) moves the cached rows along (see `scroll`); any
    /// other empties the cached rows of the region (see `invalidate_rows`).
    pub fn follow_scroll(
        &mut self,
        top: usize,
        bot: usize,
        left: usize,
        right: usize,
        rows: i64,
        grid_width: usize,
    )
        requires
            old(self).wf(),
            left == 0 && right + 2 >= grid_width ==> rows > i64::MIN,
        ensures
            final(self).wf(),
            final(self).rows@.len() == old(self).rows@.len(),
            ({
                let n = old(self).rows@.len() as int;
                let full = left == 0 && right + 2 >= grid_width;
                let t = if top < n {
                    top as int
                } else {
                    n
                };
                let b = if bot < n {
                    bot as int
                } else {
                    n
                };
                &&& forall|r: int|
                    0 <= r < n ==> #[trigger] final(self).rows@[r] == (if full {
                        if t < b && rows != 0 {
                            scrolled_entry(old(self).rows@, t, b, rows, r)
                        } else {
                            old(self).rows@[r]
                        }
                    } else if top <= r < bot {
                        None
                    } else {
                        old(self).rows@[r]
                    })
                &&& forall|r: int|
                    0 <= r < n ==> #[trigger] final(self).row_versions@[r] == (if full {
                        if t < b && rows != 0 {
                            scrolled_version(old(self).row_versions@, t, b, rows, r)
                        } else {
                            old(self).row_versions@[r]
                        }
                    } else if top <= r < bot {
                        0
                    } else {
                        old(self).row_versions@[r]
                    })
            }),
            final(self).content_cache == old(self).content_cache,
            final(self).last_cursor_row == old(self).last_cursor_row,
            final(self).last_cursor_col == old(self).last_cursor_col,
            final(self).cached_width == old(self).cached_width,
            final(self).cached_height == old(self).cached_height,
    {
        let edge = if grid_width >= 2 {
            grid_width - 2
        } else {
            0
        };
        if left == 0 && right >= edge {
            self.scroll(top, bot, rows);
        } else {
            self.invalidate_rows(top, bot);
        }
    }

    /// The rows of a grid of `height` rows to shape again, in order: those
    /// whose version in `grid_versions` (0 past its end) makes them dirty
    /// (see `row_dirty`).
    pub fn dirty_rows(&self, grid_versions: &Vec<u32>, height: usize) -> (res: Vec<usize>)
        ensures
            res@ == dirty_upto(self.rows@, self.row_versions@, grid_versions@, height as int),
    {
        let mut out: Vec<usize> = Vec::new();
        let mut i: usize = 0;
        while i < height
            invariant
                i <= height,
                out@ == dirty_upto(self.rows@, self.row_versions@, grid_versions@, i as int),
            decreases height - i,
        {
            let v = if i < grid_versions.len() {
                grid_versions[i]
            } else {
                0
            };
            if self.row_is_dirty(i, v) {
                out.push(i);
            }
            i = i + 1;
        }
        out
    }

    /// Whether row `row` must be shaped again: its version in the grid
    /// differs from the cached one (0 when there is none), or it has no
    /// cached entry.
    pub fn row_is_dirty(&self, row: usize, grid_version: u32) -> (res: bool)
        ensures
            res == row_dirty(self.rows@, self.row_versions@, row as int, grid_version),
    {
        let cached = if row < self.row_versions.len() {
            self.row_versions[row]
        } else {
            0
        };
        let present = row < self.rows.len() && self.rows[row].is_some();
        cached != grid_version || !present
    }

    /// Keeps the entry made for row `row` from grid version `version`, when
    /// the cache has such a row.
    pub fn store_row(&mut self, row: usize, entry: R, version: u32)
        requires
            old(self).wf(),
        ensures
            final(self).wf(),
            row < old(self).rows@.len() ==> final(self).rows@ == old(self).rows@.update(
                row as int,
                Some(entry),
            ) && final(self).row_versions@ == old(self).row_versions@.update(row as int, version),
            row >= old(self).rows@.len() ==> final(self).rows@ == old(self).rows@
                && final(self).row_versions@ == old(self).row_versions@,
            final(self).content_cache == old(self).content_cache,
            final(self).last_cursor_row == old(self).last_cursor_row,
            final(self).last_cursor_col == old(self).last_cursor_col,
            final(self).cached_width == old(self).cached_width,
            final(self).cached_height == old(self).cached_height,
    {
        if row < self.rows.len() {
            self.rows.set(row, Some(entry));
            self.row_versions.set(row, version);
        }
    }

    /// The shaped line kept for content hash `hash`, if any.
    pub fn lookup(&self, hash: u64) -> (res: Option<&S>)
        ensures
            match res {
                Some(v) => self.content_cache@.contains_key(hash) && *v == self.content_cache@[hash],
                None => !self.content_cache@.contains_key(hash),
            },
    {
        self.content_cache.get(&hash)
    }

    /// Keeps a shaped line under its content hash; a full cache is emptied
    /// first.
    pub fn remember(&mut self, hash: u64, shaped: S)
        ensures
            final(self).content_cache@ == (if old(self).content_cache@.len() >= CONTENT_CACHE_LIMIT {
                Map::<u64, S>::empty()
            } else {
                old(self).content_cache@
            }).insert(hash, shaped),
            final(self).rows == old(self).rows,
            final(self).row_versions == old(self).row_versions,
            final(self).last_cursor_row == old(self).last_cursor_row,
            final(self).last_cursor_col == old(self).last_cursor_col,
            final(self).cached_width == old(self).cached_width,
            final(self).cached_height == old(self).cached_height,
    {
        if self.content_cache.len() >= CONTENT_CACHE_LIMIT {
            self.content_cache.clear();
        }
        self.content_cache.insert(hash, shaped);
    }

    /// The cursor position to draw, and the one remembered: while rows are
    /// frozen (during pre-warming) the last one drawn, else the grid's,
    /// which is then remembered.
    pub fn cursor_to_draw(&mut self, grid_row: usize, grid_col: usize, frozen: bool) -> (res: (
        usize,
        usize,
    ))
        ensures
            frozen ==> res == (old(self).last_cursor_row, old(self).last_cursor_col)
                && final(self).last_cursor_row == old(self).last_cursor_row
                && final(self).last_cursor_col == old(self).last_cursor_col,
            !frozen ==> res == (grid_row, grid_col) && final(self).last_cursor_row == grid_row
                && final(self).last_cursor_col == grid_col,
            final(self).rows == old(self).rows,
            final(self).row_versions == old(self).row_versions,
            final(self).content_cache == old(self).content_cache,
            final(self).cached_width == old(self).cached_width,
            final(self).cached_height == old(self).cached_height,
    {
        if frozen {
            (self.last_cursor_row, self.last_cursor_col)
        } else {
            self.last_cursor_row = grid_row;
            self.last_cursor_col = grid_col;
            (grid_row, grid_col)
        }
    }
}

} // verus!
