//! The editor state that Neovim's `ext_linegrid` redraw events maintain:
//! grids of cells, highlight attributes, mode information and options.
use std::collections::HashMap;
use vstd::prelude::*;

verus! {

broadcast use vstd::std_specs::hash::group_hash_axioms;

/// The abstract content of one grid cell.
pub struct CellView {
    pub text: Seq<char>,
    pub hl_id: u32,
    pub width: usize,
}

/// One cell of a grid: the text drawn in it (a grapheme, or nothing for the
/// right half of a double-width character), its highlight id and its width.
#[derive(Debug, PartialEq)]
pub struct Cell {
    pub text: String,
    pub hl_id: u32,
    pub width: usize,
}

impl View for Cell {
    type V = CellView;

    open spec fn view(&self) -> CellView {
        CellView { text: self.text@, hl_id: self.hl_id, width: self.width }
    }
}

/// What a blank cell holds: a single space, highlight 0, width 1.
pub open spec fn blank_cell() -> CellView {
    CellView { text: seq![' '], hl_id: 0, width: 1 }
}

impl Clone for Cell {
    fn clone(&self) -> (res: Self)
        ensures
            res == *self,
    {
        Cell { text: self.text.clone(), hl_id: self.hl_id, width: self.width }
    }
}

impl Default for Cell {
    fn default() -> (res: Self)
        ensures
            res@ == blank_cell(),
    {
        let text = String::from_str(" ");
        proof {
            reveal_strlit(" ");
            assert(text@ =~= seq![' ']);
        }
        Cell { text, hl_id: 0, width: 1 }
    }
}

impl Cell {
    /// A cell holding `text` with highlight `hl_id` and display width `width`.
    pub fn new(text: &str, hl_id: u32, width: usize) -> (res: Self)
        ensures
            res@ == (CellView { text: text@, hl_id, width }),
    {
        Cell { text: String::from_str(text), hl_id, width }
    }

    /// The text of the cell.
    pub fn text_str(&self) -> (res: &str)
        ensures
            res@ == self.text@,
    {
        self.text.as_str()
    }
}

/// The colours and styles of one highlight group.
#[derive(Debug, Clone, Copy, PartialEq, Eq, Structural)]
pub struct HighlightAttr {
    pub foreground: Option<u32>,
    pub background: Option<u32>,
    pub special: Option<u32>,
    pub reverse: bool,
    pub italic: bool,
    pub bold: bool,
    pub underline: bool,
    pub undercurl: bool,
    pub strikethrough: bool,
    pub blend: u8,
}

/// The highlight that applies when none is defined: no colours, no styles.
pub open spec fn plain_highlight() -> HighlightAttr {
    HighlightAttr {
        foreground: None,
        background: None,
        special: None,
        reverse: false,
        italic: false,
        bold: false,
        underline: false,
        undercurl: false,
        strikethrough: false,
        blend: 0,
    }
}

impl Default for HighlightAttr {
    fn default() -> (res: Self)
        ensures
            res == plain_highlight(),
    {
        HighlightAttr {
            foreground: None,
            background: None,
            special: None,
            reverse: false,
            italic: false,
            bold: false,
            underline: false,
            undercurl: false,
            strikethrough: false,
            blend: 0,
        }
    }
}

/// The abstract content of a grid.
pub struct GridView {
    pub id: u64,
    pub width: usize,
    pub height: usize,
    pub cells: Seq<Seq<CellView>>,
    pub cursor_row: usize,
    pub cursor_col: usize,
}

/// The view of a row of cells.
pub open spec fn row_view(row: Vec<Cell>) -> Seq<CellView> {
    row@.map_values(|c: Cell| c@)
}

/// The view of all rows of a grid.
pub open spec fn rows_view(cells: Seq<Vec<Cell>>) -> Seq<Seq<CellView>> {
    cells.map_values(|row: Vec<Cell>| row_view(row))
}

/// A rectangle of `height` rows of `width` cells each.
pub open spec fn is_rect(cells: Seq<Seq<CellView>>, width: int, height: int) -> bool {
    &&& cells.len() == height
    &&& forall|r: int| 0 <= r < height ==> (#[trigger] cells[r]).len() == width
}

/// A rectangle of `height` rows of `width` blank cells.
pub open spec fn blank_rect(width: nat, height: nat) -> Seq<Seq<CellView>> {
    Seq::new(height, |r: int| Seq::new(width, |c: int| blank_cell()))
}

/// The cells after a resize: the overlapping part is kept, new cells are blank.
pub open spec fn resized_cells(
    cells: Seq<Seq<CellView>>,
    width: nat,
    height: nat,
) -> Seq<Seq<CellView>> {
    Seq::new(
        height,
        |r: int|
            Seq::new(
                width,
                |c: int|
                    if r < cells.len() && c < cells[r].len() {
                        cells[r][c]
                    } else {
                        blank_cell()
                    },
            ),
    )
}

/// `a` reduced to at most `b`.
pub open spec fn min_usize(a: usize, b: usize) -> usize {
    if a <= b {
        a
    } else {
        b
    }
}

/// The cell at row `r`, column `c` after scrolling the region rows `top..bot`,
/// columns `left..right` (already clamped to the grid) by `rows`:
/// positive `rows` moves content up, negative moves it down, and the rows
/// that the move leaves behind become blank.
pub open spec fn scrolled_cell(
    cells: Seq<Seq<CellView>>,
    top: usize,
    bot: usize,
    left: usize,
    right: usize,
    rows: i64,
    r: int,
    c: int,
) -> CellView {
    if left <= c < right {
        if rows > 0 {
            let count = #[verifier::truncate] (rows as usize);
            let stop = if bot >= count {
                bot - count
            } else {
                0
            };
            if top <= r < stop {
                cells[r + count][c]
            } else if stop <= r < bot {
                blank_cell()
            } else {
                cells[r][c]
            }
        } else {
            let count = #[verifier::truncate] ((-rows) as usize);
            if top + count <= r < bot {
                cells[r - count][c]
            } else if top <= r < top + count && r < bot {
                blank_cell()
            } else {
                cells[r][c]
            }
        }
    } else {
        cells[r][c]
    }
}

/// The cells of a `width` x `height` grid after `Grid::scroll(top, bot, left, right, rows)`.
pub open spec fn scrolled_cells(
    cells: Seq<Seq<CellView>>,
    width: usize,
    height: usize,
    top: usize,
    bot: usize,
    left: usize,
    right: usize,
    rows: i64,
) -> Seq<Seq<CellView>> {
    let t = min_usize(top, height);
    let b = min_usize(bot, height);
    let l = min_usize(left, width);
    let rt = min_usize(right, width);
    if t >= b || l >= rt || rows == 0 {
        cells
    } else {
        Seq::new(
            cells.len(),
            |r: int| Seq::new(cells[r].len(), |c: int| scrolled_cell(cells, t, b, l, rt, rows, r, c)),
        )
    }
}

/// Row `dst` with its cells in columns `left..right` taken from row `src`.
pub open spec fn copied_region(dst: Seq<CellView>, src: Seq<CellView>, left: int, right: int) -> Seq<
    CellView,
> {
    Seq::new(dst.len(), |c: int| if left <= c < right { src[c] } else { dst[c] })
}

/// Row `row` with its cells in columns `left..right` blank.
pub open spec fn blanked_region(row: Seq<CellView>, left: int, right: int) -> Seq<CellView> {
    Seq::new(row.len(), |c: int| if left <= c < right { blank_cell() } else { row[c] })
}

/// `row` with `repeat` copies of `cell` written from column `col` on, as
/// far as the row reaches.
pub open spec fn write_run(row: Seq<CellView>, col: int, cell: CellView, repeat: int) -> Seq<
    CellView,
> {
    Seq::new(row.len(), |c: int| if col <= c < col + repeat { cell } else { row[c] })
}

/// The column after writing `repeat` cells from `col` into a row of `len` cells.
pub open spec fn run_end(len: int, col: int, repeat: int) -> int {
    if col < len {
        if col + repeat < len {
            col + repeat
        } else {
            len
        }
    } else {
        col
    }
}

/// A grid of cells with its cursor.
#[derive(Debug)]
pub struct Grid {
    pub id: u64,
    pub width: usize,
    pub height: usize,
    pub cells: Vec<Vec<Cell>>,
    pub cursor_row: usize,
    pub cursor_col: usize,
}

impl View for Grid {
    type V = GridView;

    open spec fn view(&self) -> GridView {
        GridView {
            id: self.id,
            width: self.width,
            height: self.height,
            cells: rows_view(self.cells@),
            cursor_row: self.cursor_row,
            cursor_col: self.cursor_col,
        }
    }
}

impl Clone for Grid {
    fn clone(&self) -> (res: Self)
        ensures
            res@ == self@,
    {
        let res = Grid {
            id: self.id,
            width: self.width,
            height: self.height,
            cells: self.cells.clone(),
            cursor_row: self.cursor_row,
            cursor_col: self.cursor_col,
        };
        proof {
            assert forall|r: int| 0 <= r < self.cells@.len() implies row_view(res.cells@[r])
                == row_view(self.cells@[r]) by {
                assert(cloned::<Vec<Cell>>(self.cells[r], res.cells[r]));
                assert(res.cells[r]@ =~= self.cells[r]@) by {
                    assert forall|c: int| 0 <= c < self.cells[r]@.len() implies res.cells[r]@[c]
                        == self.cells[r]@[c] by {
                        assert(cloned::<Cell>(self.cells[r][c], res.cells[r][c]));
                    }
                }
            }
            assert(rows_view(res.cells@) =~= rows_view(self.cells@));
        }
        res
    }
}

impl GridView {
    /// The grid holds `height` rows of `width` cells.
    pub open spec fn wf(self) -> bool {
        is_rect(self.cells, self.width as int, self.height as int)
    }
}

impl Grid {
    /// The grid holds `height` rows of `width` cells.
    pub open spec fn wf(&self) -> bool {
        self@.wf()
    }

    /// A `width` x `height` grid of blank cells with the cursor at the origin.
    pub fn new(id: u64, width: usize, height: usize) -> (res: Self)
        ensures
            res.wf(),
            res@ == (GridView {
                id,
                width,
                height,
                cells: blank_rect(width as nat, height as nat),
                cursor_row: 0,
                cursor_col: 0,
            }),
    {
        let mut cells: Vec<Vec<Cell>> = Vec::new();
        let mut r: usize = 0;
        while r < height
            invariant
                r <= height,
                cells@.len() == r,
                forall|i: int|
                    0 <= i < r ==> #[trigger] row_view(cells@[i]) == Seq::new(
                        width as nat,
                        |c: int| blank_cell(),
                    ),
            decreases height - r,
        {
            let row = Self::blank_row(width);
            cells.push(row);
            r = r + 1;
        }
        let res = Grid { id, width, height, cells, cursor_row: 0, cursor_col: 0 };
        proof {
            assert(rows_view(res.cells@) =~= blank_rect(width as nat, height as nat)) by {
                assert forall|i: int| 0 <= i < height implies #[trigger] rows_view(res.cells@)[i]
                    == blank_rect(width as nat, height as nat)[i] by {
                    assert(row_view(cells@[i]) == Seq::new(width as nat, |c: int| blank_cell()));
                }
            }
        }
        res
    }

    /// Changes the grid to `width` x `height`: cells inside both the old and
    /// the new size keep their content, the others are blank.
    pub fn resize(&mut self, width: usize, height: usize)
        ensures
            final(self).wf(),
            final(self)@ == (GridView {
                width,
                height,
                cells: resized_cells(old(self)@.cells, width as nat, height as nat),
                ..old(self)@
            }),
    {
        let ghost old_cells = rows_view(self.cells@);
        self.width = width;
        self.height = height;
        let template = Self::blank_row(width);
        let ghost old_len = self.cells@.len();
        self.cells.resize(height, template);
        proof {
            assert forall|r: int| old_len <= r < height implies row_view(#[trigger] self.cells@[r])
                == Seq::new(width as nat, |c: int| blank_cell()) by {
                assert(cloned::<Vec<Cell>>(template, self.cells@[r]));
                assert(self.cells@[r]@ =~= template@) by {
                    assert forall|c: int| 0 <= c < template@.len() implies self.cells@[r]@[c]
                        == template@[c] by {
                        assert(cloned::<Cell>(template@[c], self.cells@[r]@[c]));
                    }
                }
                assert(row_view(self.cells@[r]) =~= row_view(template));
            }
            assert forall|r: int| 0 <= r < height && r < old_len implies row_view(
                #[trigger] self.cells@[r],
            ) == old_cells[r] by {
                if height > old_len {
                    assert(self.cells@.subrange(0, old_len as int)[r] == self.cells@[r]);
                }
            }
        }
        let mut r: usize = 0;
        while r < height
            invariant
                r <= height,
                self.width == width,
                self.height == height,
                self.id == old(self).id,
                self.cursor_row == old(self).cursor_row,
                self.cursor_col == old(self).cursor_col,
                self.cells@.len() == height,
                forall|i: int|
                    0 <= i < r ==> #[trigger] row_view(self.cells@[i]) == resized_cells(
                        old_cells,
                        width as nat,
                        height as nat,
                    )[i],
                forall|i: int|
                    r <= i < height && i < old_len ==> row_view(#[trigger] self.cells@[i])
                        == old_cells[i],
                forall|i: int|
                    r <= i < height && old_len <= i ==> row_view(#[trigger] self.cells@[i])
                        == Seq::new(width as nat, |c: int| blank_cell()),
                old_cells.len() == old_len,
            decreases height - r,
        {
            let ghost before = row_view(self.cells@[r as int]);
            let blank = Cell::default();
            let ghost blen = self.cells@[r as int]@.len();
            self.cells[r].resize(width, blank);
            proof {
                let row = self.cells@[r as int];
                let target = resized_cells(old_cells, width as nat, height as nat)[r as int];
                assert forall|c: int| 0 <= c < width implies (#[trigger] row@[c])@ == target[c] by {
                    if c < blen {
                        if width > blen {
                            assert(row@.subrange(0, blen as int)[c] == row@[c]);
                        }
                        if r < old_len {
                            assert(before[c] == old_cells[r as int][c]);
                        } else {
                            assert(before[c] == blank_cell());
                        }
                    } else {
                        assert(cloned::<Cell>(blank, row@[c]));
                    }
                }
                assert(row_view(row) =~= target);
            }
            r = r + 1;
        }
        proof {
            assert(rows_view(self.cells@) =~= resized_cells(old_cells, width as nat, height as nat));
        }
    }

    /// Blanks every cell.
    pub fn clear(&mut self)
        ensures
            final(self)@ == (GridView {
                cells: Seq::new(
                    old(self)@.cells.len(),
                    |r: int| Seq::new(old(self)@.cells[r].len(), |c: int| blank_cell()),
                ),
                ..old(self)@
            }),
    {
        let ghost old_cells = rows_view(self.cells@);
        let n = self.cells.len();
        let mut r: usize = 0;
        while r < n
            invariant
                r <= n,
                n == self.cells@.len(),
                self.id == old(self).id,
                self.width == old(self).width,
                self.height == old(self).height,
                self.cursor_row == old(self).cursor_row,
                self.cursor_col == old(self).cursor_col,
                old_cells.len() == n,
                forall|i: int|
                    0 <= i < r ==> #[trigger] row_view(self.cells@[i]) == Seq::new(
                        old_cells[i].len(),
                        |c: int| blank_cell(),
                    ),
                forall|i: int| r <= i < n ==> #[trigger] row_view(self.cells@[i]) == old_cells[i],
            decreases n - r,
        {
            let m = self.cells[r].len();
            let ghost len0 = old_cells[r as int].len();
            let ghost before_rows = self.cells@;
            assert(row_view(self.cells@[r as int]).len() == self.cells@[r as int]@.len());
            let mut c: usize = 0;
            while c < m
                invariant
                    c <= m,
                    r < n,
                    self.id == old(self).id,
                    self.width == old(self).width,
                    self.height == old(self).height,
                    self.cursor_row == old(self).cursor_row,
                    self.cursor_col == old(self).cursor_col,
                    n == self.cells@.len(),
                    m == self.cells@[r as int]@.len(),
                    m == len0,
                    forall|j: int| 0 <= j < c ==> (#[trigger] self.cells@[r as int]@[j])@ == blank_cell(),
                    forall|i: int| 0 <= i < n && i != r ==> #[trigger] self.cells@[i] == before_rows[i],
                    before_rows.len() == n,
                decreases m - c,
            {
                self.cells[r][c] = Cell::default();
                c = c + 1;
            }
            proof {
                assert(row_view(self.cells@[r as int]) =~= Seq::new(len0, |c: int| blank_cell()));
            }
            r = r + 1;
        }
        proof {
            assert(rows_view(self.cells@) =~= Seq::new(
                old_cells.len(),
                |r: int| Seq::new(old_cells[r].len(), |c: int| blank_cell()),
            ));
        }
    }

    /// Moves the content of the region rows `top..bot`, columns `left..right`
    /// by `rows` rows (positive: up, negative: down), as Neovim's
    /// `grid_scroll` asks; bounds beyond the grid are clamped to it, and an
    /// empty region or a zero count changes nothing.  The rows that the move
    /// leaves behind become blank.
    pub fn scroll(&mut self, top: usize, bot: usize, left: usize, right: usize, rows: i64)
        requires
            old(self).wf(),
            ({
                let t = min_usize(top, old(self).height);
                let b = min_usize(bot, old(self).height);
                let l = min_usize(left, old(self).width);
                let rt = min_usize(right, old(self).width);
                (t < b && l < rt && rows < 0) ==> (rows > i64::MIN && t + (#[verifier::truncate] ((-rows) as usize))
                    <= usize::MAX)
            }),
        ensures
            final(self).wf(),
            final(self)@ == (GridView {
                cells: scrolled_cells(
                    old(self)@.cells,
                    old(self).width,
                    old(self).height,
                    top,
                    bot,
                    left,
                    right,
                    rows,
                ),
                ..old(self)@
            }),
    {
        let ghost old_cells = rows_view(self.cells@);
        let top = if top < self.height {
            top
        } else {
            self.height
        };
        let bot = if bot < self.height {
            bot
        } else {
            self.height
        };
        let left = if left < self.width {
            left
        } else {
            self.width
        };
        let right = if right < self.width {
            right
        } else {
            self.width
        };
        if top >= bot || left >= right || rows == 0 {
            return ;
        }
        let ghost target = scrolled_cells(
            old_cells,
            self.width,
            self.height,
            top,
            bot,
            left,
            right,
            rows,
        );
        if rows > 0 {
            let count = #[verifier::truncate] (rows as usize);
            let stop = if bot >= count {
                bot - count
            } else {
                0
            };
            let mut r = top;
            while r < stop
                invariant
                    self.wf(),
                    self.id == old(self).id,
                    self.width == old(self).width,
                    self.height == old(self).height,
                    self.cursor_row == old(self).cursor_row,
                    self.cursor_col == old(self).cursor_col,
                    old_cells == old(self)@.cells,
                    is_rect(old_cells, self.width as int, self.height as int),
                    top <= r,
                    r <= stop || stop < top,
                    stop < top ==> r == top,
                    stop + count == bot || (stop == 0 && bot < count),
                    bot <= self.height,
                    left < right <= self.width,
                    forall|i: int|
                        top <= i < r ==> #[trigger] rows_view(self.cells@)[i] == copied_region(
                            old_cells[i],
                            old_cells[i + count],
                            left as int,
                            right as int,
                        ),
                    forall|i: int|
                        0 <= i < self.height && !(top <= i < r) ==> #[trigger] rows_view(
                            self.cells@,
                        )[i] == old_cells[i],
                decreases stop - r,
            {
                self.copy_row_region(r, r + count, left, right);
                r = r + 1;
            }
            let ghost after_copy = rows_view(self.cells@);
            let mut r = stop;
            while r < bot
                invariant
                    self.wf(),
                    self.id == old(self).id,
                    self.width == old(self).width,
                    self.height == old(self).height,
                    self.cursor_row == old(self).cursor_row,
                    self.cursor_col == old(self).cursor_col,
                    stop <= r <= bot,
                    bot <= self.height,
                    left < right <= self.width,
                    is_rect(after_copy, self.width as int, self.height as int),
                    forall|i: int|
                        stop <= i < r ==> #[trigger] rows_view(self.cells@)[i] == blanked_region(
                            after_copy[i],
                            left as int,
                            right as int,
                        ),
                    forall|i: int|
                        0 <= i < self.height && !(stop <= i < r) ==> #[trigger] rows_view(
                            self.cells@,
                        )[i] == after_copy[i],
                decreases bot - r,
            {
                self.blank_row_region(r, left, right);
                r = r + 1;
            }
            proof {
                let cur = rows_view(self.cells@);
                assert forall|i: int| 0 <= i < self.height implies #[trigger] cur[i] == target[i] by {
                    if stop <= i < bot {
                        assert(after_copy[i] == old_cells[i]);
                        assert(cur[i] =~= target[i]);
                    } else if top <= i < stop {
                        assert(cur[i] == after_copy[i]);
                        assert(cur[i] =~= target[i]);
                    } else {
                        assert(cur[i] == old_cells[i]);
                        assert(cur[i] =~= target[i]);
                    }
                }
                assert(cur =~= target);
            }
        } else {
            let count = #[verifier::truncate] ((-rows) as usize);
            let start = top + count;
            let mut r = bot;
            while r > start
                invariant
                    self.wf(),
                    self.id == old(self).id,
                    self.width == old(self).width,
                    self.height == old(self).height,
                    self.cursor_row == old(self).cursor_row,
                    self.cursor_col == old(self).cursor_col,
                    old_cells == old(self)@.cells,
                    is_rect(old_cells, self.width as int, self.height as int),
                    r <= bot || (r == bot),
                    start == top + count,
                    bot <= self.height,
                    left < right <= self.width,
                    forall|i: int|
                        r <= i < bot && start <= i ==> #[trigger] rows_view(self.cells@)[i]
                            == copied_region(old_cells[i], old_cells[i - count], left as int, right as int),
                    forall|i: int|
                        0 <= i < self.height && !(r <= i < bot && start <= i) ==> #[trigger] rows_view(
                            self.cells@,
                        )[i] == old_cells[i],
                decreases r,
            {
                r = r - 1;
                self.copy_row_region(r, r - count, left, right);
            }
            let ghost after_copy = rows_view(self.cells@);
            let end = if start < bot {
                start
            } else {
                bot
            };
            let mut r = top;
            while r < end
                invariant
                    self.wf(),
                    self.id == old(self).id,
                    self.width == old(self).width,
                    self.height == old(self).height,
                    self.cursor_row == old(self).cursor_row,
                    self.cursor_col == old(self).cursor_col,
                    top <= r <= end,
                    end <= bot <= self.height,
                    left < right <= self.width,
                    is_rect(after_copy, self.width as int, self.height as int),
                    forall|i: int|
                        top <= i < r ==> #[trigger] rows_view(self.cells@)[i] == blanked_region(
                            after_copy[i],
                            left as int,
                            right as int,
                        ),
                    forall|i: int|
                        0 <= i < self.height && !(top <= i < r) ==> #[trigger] rows_view(
                            self.cells@,
                        )[i] == after_copy[i],
                decreases end - r,
            {
                self.blank_row_region(r, left, right);
                r = r + 1;
            }
            proof {
                let cur = rows_view(self.cells@);
                assert forall|i: int| 0 <= i < self.height implies #[trigger] cur[i] == target[i] by {
                    if top <= i < end {
                        assert(after_copy[i] == old_cells[i]);
                        assert(cur[i] =~= target[i]);
                    } else if start <= i < bot {
                        assert(cur[i] == after_copy[i]);
                        assert(cur[i] =~= target[i]);
                    } else {
                        assert(cur[i] == old_cells[i]);
                        assert(cur[i] =~= target[i]);
                    }
                }
                assert(cur =~= target);
            }
        }
    }

    /// Copies the cells in columns `left..right` of row `src` into row `dst`.
    fn copy_row_region(&mut self, dst: usize, src: usize, left: usize, right: usize)
        requires
            old(self).wf(),
            dst < old(self).height,
            src < old(self).height,
            left <= right <= old(self).width,
        ensures
            final(self).wf(),
            final(self).id == old(self).id,
            final(self).width == old(self).width,
            final(self).height == old(self).height,
            final(self).cursor_row == old(self).cursor_row,
            final(self).cursor_col == old(self).cursor_col,
            rows_view(final(self).cells@) == rows_view(old(self).cells@).update(
                dst as int,
                copied_region(
                    rows_view(old(self).cells@)[dst as int],
                    rows_view(old(self).cells@)[src as int],
                    left as int,
                    right as int,
                ),
            ),
    {
        let ghost old_cells = rows_view(self.cells@);
        let mut c = left;
        while c < right
            invariant
                left <= c <= right,
                right <= self.width,
                self.wf(),
                self.id == old(self).id,
                self.width == old(self).width,
                self.height == old(self).height,
                self.cursor_row == old(self).cursor_row,
                self.cursor_col == old(self).cursor_col,
                dst < self.height,
                src < self.height,
                old_cells == rows_view(old(self).cells@),
                is_rect(old_cells, self.width as int, self.height as int),
                forall|i: int|
                    0 <= i < self.height && i != dst ==> #[trigger] rows_view(self.cells@)[i]
                        == old_cells[i],
                forall|j: int|
                    0 <= j < self.width ==> #[trigger] rows_view(self.cells@)[dst as int][j] == (
                    if left <= j < c {
                        old_cells[src as int][j]
                    } else {
                        old_cells[dst as int][j]
                    }),
            decreases right - c,
        {
            proof {
                assert(rows_view(self.cells@)[src as int].len() == self.width);
                assert(rows_view(self.cells@)[dst as int].len() == self.width);
                assert(rows_view(self.cells@)[src as int][c as int] == old_cells[src as int][c as int]);
            }
            let cell = self.cells[src][c].clone();
            let ghost before = self.cells@;
            self.cells[dst][c] = cell;
            proof {
                assert forall|j: int| 0 <= j < self.width implies #[trigger] rows_view(self.cells@)[dst as int][j] == (
                    if left <= j < c + 1 {
                        old_cells[src as int][j]
                    } else {
                        old_cells[dst as int][j]
                    }) by {
                    assert(rows_view(before)[dst as int][j] == before[dst as int]@[j]@);
                    if j != c {
                        assert(self.cells@[dst as int]@[j] == before[dst as int]@[j]);
                    }
                }
                assert forall|i: int| 0 <= i < self.height && i != dst implies #[trigger] rows_view(
                    self.cells@,
                )[i] == rows_view(before)[i] by {
                    assert(self.cells@[i] == before[i]);
                }
                assert forall|i: int| 0 <= i < self.height implies (#[trigger] self.cells@[i])@.len()
                    == self.width by {
                    assert(rows_view(before)[i].len() == self.width);
                }
            }
            c = c + 1;
        }
        proof {
            assert(rows_view(self.cells@) =~= old_cells.update(
                dst as int,
                copied_region(old_cells[dst as int], old_cells[src as int], left as int, right as int),
            )) by {
                assert(rows_view(self.cells@)[dst as int] =~= copied_region(
                    old_cells[dst as int],
                    old_cells[src as int],
                    left as int,
                    right as int,
                ));
            }
        }
    }

    /// Blanks the cells in columns `left..right` of row `r`.
    fn blank_row_region(&mut self, r: usize, left: usize, right: usize)
        requires
            old(self).wf(),
            r < old(self).height,
            left <= right <= old(self).width,
        ensures
            final(self).wf(),
            final(self).id == old(self).id,
            final(self).width == old(self).width,
            final(self).height == old(self).height,
            final(self).cursor_row == old(self).cursor_row,
            final(self).cursor_col == old(self).cursor_col,
            rows_view(final(self).cells@) == rows_view(old(self).cells@).update(
                r as int,
                blanked_region(rows_view(old(self).cells@)[r as int], left as int, right as int),
            ),
    {
        let ghost old_cells = rows_view(self.cells@);
        let mut c = left;
        while c < right
            invariant
                left <= c <= right,
                right <= self.width,
                self.wf(),
                self.id == old(self).id,
                self.width == old(self).width,
                self.height == old(self).height,
                self.cursor_row == old(self).cursor_row,
                self.cursor_col == old(self).cursor_col,
                r < self.height,
                old_cells == rows_view(old(self).cells@),
                is_rect(old_cells, self.width as int, self.height as int),
                forall|i: int|
                    0 <= i < self.height && i != r ==> #[trigger] rows_view(self.cells@)[i]
                        == old_cells[i],
                forall|j: int|
                    0 <= j < self.width ==> #[trigger] rows_view(self.cells@)[r as int][j] == (
                    if left <= j < c {
                        blank_cell()
                    } else {
                        old_cells[r as int][j]
                    }),
            decreases right - c,
        {
            proof {
                assert(rows_view(self.cells@)[r as int].len() == self.width);
            }
            let ghost before = self.cells@;
            self.cells[r][c] = Cell::default();
            proof {
                assert forall|j: int| 0 <= j < self.width implies #[trigger] rows_view(self.cells@)[r as int][j] == (
                    if left <= j < c + 1 {
                        blank_cell()
                    } else {
                        old_cells[r as int][j]
                    }) by {
                    assert(rows_view(before)[r as int][j] == before[r as int]@[j]@);
                    if j != c {
                        assert(self.cells@[r as int]@[j] == before[r as int]@[j]);
                    }
                }
                assert forall|i: int| 0 <= i < self.height && i != r implies #[trigger] rows_view(
                    self.cells@,
                )[i] == rows_view(before)[i] by {
                    assert(self.cells@[i] == before[i]);
                }
                assert forall|i: int| 0 <= i < self.height implies (#[trigger] self.cells@[i])@.len()
                    == self.width by {
                    assert(rows_view(before)[i].len() == self.width);
                }
            }
            c = c + 1;
        }
        proof {
            assert(rows_view(self.cells@) =~= old_cells.update(
                r as int,
                blanked_region(old_cells[r as int], left as int, right as int),
            )) by {
                assert(rows_view(self.cells@)[r as int] =~= blanked_region(
                    old_cells[r as int],
                    left as int,
                    right as int,
                ));
            }
        }
    }

    /// A row of `width` blank cells.
    fn blank_row(width: usize) -> (res: Vec<Cell>)
        ensures
            row_view(res) == Seq::new(width as nat, |c: int| blank_cell()),
    {
        let mut row: Vec<Cell> = Vec::new();
        let mut c: usize = 0;
        while c < width
            invariant
                c <= width,
                row@.len() == c,
                forall|i: int| 0 <= i < c ==> (#[trigger] row@[i])@ == blank_cell(),
            decreases width - c,
        {
            row.push(Cell::default());
            c = c + 1;
        }
        assert(row_view(row) =~= Seq::new(width as nat, |c: int| blank_cell()));
        row
    }
}

} // verus!

verus! {

impl Grid {
    /// Writes `repeat` copies of `cell` into row `row` from column `col` on,
    /// stopping at the end of the row; returns the column after the last one
    /// written (`col` when nothing was written).
    pub fn put_cells(&mut self, row: usize, col: usize, cell: &Cell, repeat: usize) -> (next: usize)
        requires
            old(self).wf(),
            row < old(self).height,
        ensures
            final(self).wf(),
            final(self)@ == (GridView {
                cells: old(self)@.cells.update(
                    row as int,
                    write_run(old(self)@.cells[row as int], col as int, cell@, repeat as int),
                ),
                ..old(self)@
            }),
            next == run_end(old(self).width as int, col as int, repeat as int),
    {
        let ghost old_cells = rows_view(self.cells@);
        proof {
            assert(rows_view(self.cells@)[row as int].len() == self.width);
        }
        let len = self.cells[row].len();
        let mut c = col;
        let mut k: usize = 0;
        while k < repeat && c < len
            invariant
                self.wf(),
                self.id == old(self).id,
                self.width == old(self).width,
                self.height == old(self).height,
                self.cursor_row == old(self).cursor_row,
                self.cursor_col == old(self).cursor_col,
                row < self.height,
                len == self.width,
                old_cells == rows_view(old(self).cells@),
                is_rect(old_cells, self.width as int, self.height as int),
                c == col + k,
                k <= repeat,
                c <= len || k == 0,
                forall|i: int|
                    0 <= i < self.height && i != row ==> #[trigger] rows_view(self.cells@)[i]
                        == old_cells[i],
                forall|j: int|
                    0 <= j < self.width ==> #[trigger] rows_view(self.cells@)[row as int][j] == (
                    if col <= j < c {
                        cell@
                    } else {
                        old_cells[row as int][j]
                    }),
            decreases repeat - k,
        {
            proof {
                assert(rows_view(self.cells@)[row as int].len() == self.width);
            }
            let v = cell.clone();
            let ghost before = self.cells@;
            self.cells[row][c] = v;
            proof {
                assert forall|j: int| 0 <= j < self.width implies #[trigger] rows_view(self.cells@)[row as int][j] == (
                    if col <= j < c + 1 {
                        cell@
                    } else {
                        old_cells[row as int][j]
                    }) by {
                    assert(rows_view(before)[row as int][j] == before[row as int]@[j]@);
                    if j != c {
                        assert(self.cells@[row as int]@[j] == before[row as int]@[j]);
                    }
                }
                assert forall|i: int| 0 <= i < self.height && i != row implies #[trigger] rows_view(
                    self.cells@,
                )[i] == rows_view(before)[i] by {
                    assert(self.cells@[i] == before[i]);
                }
                assert forall|i: int| 0 <= i < self.height implies (#[trigger] self.cells@[i])@.len()
                    == self.width by {
                    assert(rows_view(before)[i].len() == self.width);
                }
            }
            c = c + 1;
            k = k + 1;
        }
        proof {
            assert(rows_view(self.cells@) =~= old_cells.update(
                row as int,
                write_run(old_cells[row as int], col as int, cell@, repeat as int),
            )) by {
                assert(rows_view(self.cells@)[row as int] =~= write_run(
                    old_cells[row as int],
                    col as int,
                    cell@,
                    repeat as int,
                ));
            }
        }
        c
    }

    /// The cells of row `r`.
    pub fn row(&self, r: usize) -> (res: &Vec<Cell>)
        requires
            r < self.cells@.len(),
        ensures
            *res == self.cells@[r as int],
    {
        &self.cells[r]
    }

    /// The cell at row `r`, column `c`, if the grid has one there.
    pub fn get_cell(&self, r: usize, c: usize) -> (res: Option<&Cell>)
        ensures
            match res {
                Some(cell) => r < self.cells@.len() && c < self.cells@[r as int]@.len()
                    && *cell == self.cells@[r as int]@[c as int],
                None => !(r < self.cells@.len() && c < self.cells@[r as int]@.len()),
            },
    {
        if r < self.cells.len() && c < self.cells[r].len() {
            Some(&self.cells[r][c])
        } else {
            None
        }
    }

    /// Puts `cell` at row `r`, column `c` when the grid has such a cell;
    /// does nothing otherwise.
    pub fn set_cell(&mut self, r: usize, c: usize, cell: Cell)
        ensures
            final(self).id == old(self).id,
            final(self).width == old(self).width,
            final(self).height == old(self).height,
            final(self).cursor_row == old(self).cursor_row,
            final(self).cursor_col == old(self).cursor_col,
            if r < old(self).cells@.len() && c < old(self).cells@[r as int]@.len() {
                final(self)@.cells == old(self)@.cells.update(
                    r as int,
                    old(self)@.cells[r as int].update(c as int, cell@),
                )
            } else {
                final(self)@.cells == old(self)@.cells
            },
    {
        if r < self.cells.len() && c < self.cells[r].len() {
            let ghost before = self.cells@;
            self.cells[r][c] = cell;
            proof {
                assert(row_view(self.cells@[r as int]) =~= row_view(before[r as int]).update(
                    c as int,
                    cell@,
                ));
                assert(rows_view(self.cells@) =~= rows_view(before).update(
                    r as int,
                    row_view(before[r as int]).update(c as int, cell@),
                ));
            }
        }
    }
}

} // verus!

verus! {

/// The abstract content of a mode description.
pub struct ModeInfoView {
    pub name: Seq<char>,
    pub cursor_shape: Seq<char>,
    pub cell_percentage: u64,
    pub blinkwait: u64,
    pub blinkon: u64,
    pub blinkoff: u64,
    pub hl_id: u32,
}

/// How the cursor looks in one editor mode, as `mode_info_set` describes it.
#[derive(Debug)]
pub struct ModeInfo {
    pub name: String,
    pub cursor_shape: String,
    pub cell_percentage: u64,
    pub blinkwait: u64,
    pub blinkon: u64,
    pub blinkoff: u64,
    pub hl_id: u32,
}

impl View for ModeInfo {
    type V = ModeInfoView;

    open spec fn view(&self) -> ModeInfoView {
        ModeInfoView {
            name: self.name@,
            cursor_shape: self.cursor_shape@,
            cell_percentage: self.cell_percentage,
            blinkwait: self.blinkwait,
            blinkon: self.blinkon,
            blinkoff: self.blinkoff,
            hl_id: self.hl_id,
        }
    }
}

/// The description of a mode before `mode_info_set` says more: a full
/// block cursor in normal mode without blinking.
pub open spec fn default_mode_info() -> ModeInfoView {
    ModeInfoView {
        name: seq!['n', 'o', 'r', 'm', 'a', 'l'],
        cursor_shape: seq!['b', 'l', 'o', 'c', 'k'],
        cell_percentage: 100,
        blinkwait: 0,
        blinkon: 0,
        blinkoff: 0,
        hl_id: 0,
    }
}

impl Default for ModeInfo {
    fn default() -> (res: Self)
        ensures
            res@ == default_mode_info(),
    {
        let name = String::from_str("normal");
        let cursor_shape = String::from_str("block");
        proof {
            reveal_strlit("normal");
            reveal_strlit("block");
            assert(name@ =~= seq!['n', 'o', 'r', 'm', 'a', 'l']);
            assert(cursor_shape@ =~= seq!['b', 'l', 'o', 'c', 'k']);
        }
        ModeInfo {
            name,
            cursor_shape,
            cell_percentage: 100,
            blinkwait: 0,
            blinkon: 0,
            blinkoff: 0,
            hl_id: 0,
        }
    }
}

/// The abstract content of the editor state.
pub struct NvimStateView {
    pub default_fg: u32,
    pub default_bg: u32,
    pub default_sp: u32,
    pub highlights: Map<u32, HighlightAttr>,
    pub grids: Map<u64, GridView>,
    pub active_grid: u64,
    pub current_mode: Seq<char>,
    pub mode_info: Seq<ModeInfoView>,
    pub current_mode_idx: usize,
    pub title: Seq<char>,
    pub guifont: Seq<char>,
    pub linespace: i64,
    pub is_prewarming: bool,
}

impl NvimStateView {
    /// Every grid holds `height` rows of `width` cells.
    pub open spec fn wf(self) -> bool {
        forall|k: u64| #[trigger] self.grids.contains_key(k) ==> self.grids[k].wf()
    }
}

/// Everything the front end knows of the editor's display.
#[derive(Debug)]
pub struct NvimState {
    pub default_fg: u32,
    pub default_bg: u32,
    pub default_sp: u32,
    pub highlights: HashMap<u32, HighlightAttr>,
    pub grids: HashMap<u64, Grid>,
    pub active_grid: u64,
    pub current_mode: String,
    pub mode_info: Vec<ModeInfo>,
    pub current_mode_idx: usize,
    pub title: String,
    pub guifont: String,
    pub linespace: i64,
    pub is_prewarming: bool,
}

impl View for NvimState {
    type V = NvimStateView;

    open spec fn view(&self) -> NvimStateView {
        NvimStateView {
            default_fg: self.default_fg,
            default_bg: self.default_bg,
            default_sp: self.default_sp,
            highlights: self.highlights@,
            grids: self.grids@.map_values(|g: Grid| g@),
            active_grid: self.active_grid,
            current_mode: self.current_mode@,
            mode_info: self.mode_info@.map_values(|m: ModeInfo| m@),
            current_mode_idx: self.current_mode_idx,
            title: self.title@,
            guifont: self.guifont@,
            linespace: self.linespace,
            is_prewarming: self.is_prewarming,
        }
    }
}

/// The state before Neovim has said anything: one 80 x 24 blank grid with
/// id 1, a light grey on dark grey palette with red specials, normal mode,
/// the title "Zenvi", no guifont and no extra line space.
pub open spec fn initial_state() -> NvimStateView {
    NvimStateView {
        default_fg: 0xcccccc,
        default_bg: 0x1e1e1e,
        default_sp: 0xff0000,
        highlights: Map::empty(),
        grids: Map::empty().insert(
            1u64,
            GridView {
                id: 1,
                width: 80,
                height: 24,
                cells: blank_rect(80, 24),
                cursor_row: 0,
                cursor_col: 0,
            },
        ),
        active_grid: 1,
        current_mode: seq!['n', 'o', 'r', 'm', 'a', 'l'],
        mode_info: Seq::empty(),
        current_mode_idx: 0,
        title: seq!['Z', 'e', 'n', 'v', 'i'],
        guifont: Seq::empty(),
        linespace: 0,
        is_prewarming: false,
    }
}

impl Default for NvimState {
    fn default() -> (res: Self)
        ensures
            res@ == initial_state(),
            res@.wf(),
    {
        let mut grids: HashMap<u64, Grid> = HashMap::new();
        let g = Grid::new(1, 80, 24);
        grids.insert(1, g);
        let current_mode = String::from_str("normal");
        let title = String::from_str("Zenvi");
        proof {
            reveal_strlit("normal");
            reveal_strlit("Zenvi");
            assert(current_mode@ =~= seq!['n', 'o', 'r', 'm', 'a', 'l']);
            assert(title@ =~= seq!['Z', 'e', 'n', 'v', 'i']);
        }
        let res = NvimState {
            default_fg: 0xcccccc,
            default_bg: 0x1e1e1e,
            default_sp: 0xff0000,
            highlights: HashMap::new(),
            grids,
            active_grid: 1,
            current_mode,
            mode_info: Vec::new(),
            current_mode_idx: 0,
            title,
            guifont: String::new(),
            linespace: 0,
            is_prewarming: false,
        };
        proof {
            assert(res@.grids =~= initial_state().grids);
            assert(res@.mode_info =~= Seq::empty());
            assert(res@.highlights =~= Map::empty());
        }
        res
    }
}

impl NvimState {
    /// The attributes of highlight `id`, if it was defined.
    pub fn get_highlight(&self, id: u32) -> (res: Option<&HighlightAttr>)
        ensures
            match res {
                Some(a) => self@.highlights.contains_key(id) && *a == self@.highlights[id],
                None => !self@.highlights.contains_key(id),
            },
    {
        self.highlights.get(&id)
    }
}

} // verus!
