//! Properties of the library that span several operations.
use crate::events::{
    apply_call, apply_grid_line, display_width, line_cells, line_step, target_grid, u64_or,
    RedrawKind,
};
use crate::input::{is_modifier_key, is_system_shortcut, key_to_nvim, Modifiers};
use crate::font::{first_resolved, guifont_entries_spec, installed_family, resolved_family, GuiFontView};
use crate::mouse::{after_finish, after_move, mouse_mods, DragTracker};
use crate::platform::TargetOs;
use crate::render::{
    cell_colors, highlight_of, row_dirty, scrolled_entry, span_step, scrolled_version, spans_upto, SpanView,
    CONTENT_CACHE_LIMIT,
};
use crate::session::{batch_flushes, batch_state};
use crate::state::{
    blank_cell, min_usize, resized_cells, scrolled_cells, CellView, GridView, HighlightAttr,
    NvimStateView,
};
use crate::text::{eq_ignore_ascii_case, is_space, lemma_trimmed_ends, lemma_trimmed_fixed, trimmed};
use crate::titlebar::{ends_with, title_for};
use crate::value::{int_view, ValueView};
use vstd::prelude::*;

verus! {

/// Resizing keeps every cell inside both the old and the new size, and
/// every other cell of the new grid is blank.
pub proof fn lemma_resize_keeps_overlap(g: GridView, width: nat, height: nat, r: int, c: int)
    requires
        g.wf(),
        0 <= r < height,
        0 <= c < width,
    ensures
        resized_cells(g.cells, width, height).len() == height,
        resized_cells(g.cells, width, height)[r].len() == width,
        resized_cells(g.cells, width, height)[r][c] == (if r < g.height && c < g.width {
            g.cells[r][c]
        } else {
            blank_cell()
        }),
{
}

/// Growing a grid and shrinking it back to its size gives the grid back.
pub proof fn lemma_grow_then_shrink(g: GridView, width: nat, height: nat)
    requires
        g.wf(),
        g.width <= width,
        g.height <= height,
    ensures
        resized_cells(resized_cells(g.cells, width, height), g.width as nat, g.height as nat)
            == g.cells,
{
    let back = resized_cells(resized_cells(g.cells, width, height), g.width as nat, g.height as nat);
    assert forall|r: int| 0 <= r < g.height implies #[trigger] back[r] == g.cells[r] by {
        assert(back[r] =~= g.cells[r]);
    }
    assert(back =~= g.cells);
}

/// Scrolling by no rows, or over an empty region, changes nothing.
pub proof fn lemma_scroll_noop(
    g: GridView,
    top: usize,
    bot: usize,
    left: usize,
    right: usize,
    rows: i64,
)
    requires
        g.wf(),
        rows == 0 || min_usize(top, g.height) >= min_usize(bot, g.height) || min_usize(
            left,
            g.width,
        ) >= min_usize(right, g.width),
    ensures
        scrolled_cells(g.cells, g.width, g.height, top, bot, left, right, rows) == g.cells,
{
}

/// Scrolling leaves every cell outside the region (clamped to the grid)
/// as it was, and keeps the grid's shape, when an upward count is no
/// larger than the region (as Neovim sends it): a larger one also blanks
/// the rows just above the region.
pub proof fn lemma_scroll_outside_unchanged(
    g: GridView,
    top: usize,
    bot: usize,
    left: usize,
    right: usize,
    rows: i64,
    r: int,
    c: int,
)
    requires
        g.wf(),
        0 <= r < g.height,
        0 <= c < g.width,
        !(min_usize(top, g.height) <= r < min_usize(bot, g.height) && min_usize(left, g.width)
            <= c < min_usize(right, g.width)),
        rows > 0 ==> rows <= min_usize(bot, g.height) - min_usize(top, g.height),
    ensures
        scrolled_cells(g.cells, g.width, g.height, top, bot, left, right, rows).len() == g.height,
        scrolled_cells(g.cells, g.width, g.height, top, bot, left, right, rows)[r].len()
            == g.width,
        scrolled_cells(g.cells, g.width, g.height, top, bot, left, right, rows)[r][c]
            == g.cells[r][c],
{
}

/// Inside the region, scrolling up by `k` rows gives each row the content
/// of the row `k` below it, and the last `k` rows of the region become
/// blank; scrolling down by `k` gives each row the content of the row `k`
/// above it, and the first `k` rows of the region become blank.
pub proof fn lemma_scroll_moves_region(
    g: GridView,
    top: usize,
    bot: usize,
    left: usize,
    right: usize,
    rows: i64,
    r: int,
    c: int,
)
    requires
        g.wf(),
        rows != 0,
        -(usize::MAX as int) <= rows <= usize::MAX,
        min_usize(top, g.height) <= r < min_usize(bot, g.height),
        min_usize(left, g.width) <= c < min_usize(right, g.width),
    ensures
        scrolled_cells(g.cells, g.width, g.height, top, bot, left, right, rows)[r][c] == (if rows
            > 0 {
            if r + rows < min_usize(bot, g.height) {
                g.cells[r + rows][c]
            } else {
                blank_cell()
            }
        } else {
            if r + rows >= min_usize(top, g.height) {
                g.cells[r + rows][c]
            } else {
                blank_cell()
            }
        }),
{
    if rows > 0 {
        let count = #[verifier::truncate] (rows as usize);
        assert(count == rows);
    } else {
        let count = #[verifier::truncate] ((-rows) as usize);
        assert(count == -rows);
    }
}

/// Two scrolls of one region in one direction equal one scroll by the sum
/// of their counts, while the counts together fit in the region.  (A
/// single upward count larger than the region also blanks rows above it,
/// so beyond that bound the two sides differ.)
pub proof fn lemma_scroll_composes(
    g: GridView,
    top: usize,
    bot: usize,
    left: usize,
    right: usize,
    k1: i64,
    k2: i64,
)
    requires
        g.wf(),
        (0 < k1 && 0 < k2 && k1 + k2 <= min_usize(bot, g.height) - min_usize(top, g.height)) || (k1
            < 0 && k2 < 0 && -(k1 + k2) <= min_usize(bot, g.height) - min_usize(top, g.height)),
        i64::MIN <= k1 + k2,
        k1 + k2 <= i64::MAX,
    ensures
        scrolled_cells(
            scrolled_cells(g.cells, g.width, g.height, top, bot, left, right, k1),
            g.width,
            g.height,
            top,
            bot,
            left,
            right,
            k2,
        ) == scrolled_cells(g.cells, g.width, g.height, top, bot, left, right, (k1 + k2) as i64),
{
    let w = g.width;
    let h = g.height;
    let t = min_usize(top, h);
    let b = min_usize(bot, h);
    let l = min_usize(left, w);
    let rt = min_usize(right, w);
    let k = (k1 + k2) as i64;
    let once = scrolled_cells(g.cells, w, h, top, bot, left, right, k1);
    let twice = scrolled_cells(once, w, h, top, bot, left, right, k2);
    let whole = scrolled_cells(g.cells, w, h, top, bot, left, right, k);
    if l < rt {
        if k1 > 0 {
            let c1 = #[verifier::truncate] (k1 as usize);
            let c2 = #[verifier::truncate] (k2 as usize);
            let c = #[verifier::truncate] (k as usize);
            assert(c1 == k1 && c2 == k2 && c == k1 + k2);
        } else {
            let c1 = #[verifier::truncate] ((-k1) as usize);
            let c2 = #[verifier::truncate] ((-k2) as usize);
            let c = #[verifier::truncate] ((-k) as usize);
            assert(c1 == -k1 && c2 == -k2 && c == -(k1 + k2));
        }
        assert forall|r: int| 0 <= r < h implies #[trigger] twice[r] == whole[r] by {
            assert(twice[r] =~= whole[r]);
        }
        assert(twice =~= whole);
    }
}

/// Where row `r` takes its content from when the rows `t..b` move by
/// `rows` (positive: up): another row of the region, or none (it is left
/// behind and emptied); a row outside the region keeps its own.
pub open spec fn scroll_source(t: int, b: int, rows: i64, r: int) -> Option<int> {
    if t <= r < b {
        if rows > 0 {
            let count = rows as int;
            if r < b - count {
                Some(r + count)
            } else {
                None
            }
        } else {
            let count = -(rows as int);
            if r >= t + count {
                Some(r - count)
            } else {
                None
            }
        }
    } else {
        Some(r)
    }
}

/// The render cache follows the grid: after a full-width scroll of the grid
/// and the same scroll of a cache with one entry per grid row, every row
/// of both takes its content from the same source row, or is emptied in
/// the cache and blank in the grid.  An upward count is no larger than the
/// region, as Neovim sends it (a larger one also blanks grid rows above
/// the region, which the cache keeps).
pub proof fn lemma_cache_scroll_follows_grid<R>(
    g: GridView,
    entries: Seq<Option<R>>,
    versions: Seq<u32>,
    top: usize,
    bot: usize,
    rows: i64,
    r: int,
)
    requires
        g.wf(),
        entries.len() == g.height,
        versions.len() == g.height,
        rows != 0,
        rows > i64::MIN,
        rows <= usize::MAX,
        -rows <= usize::MAX,
        min_usize(top, g.height) < min_usize(bot, g.height),
        rows > 0 ==> rows <= min_usize(bot, g.height) - min_usize(top, g.height),
        0 <= r < g.height,
    ensures
        ({
            let t = min_usize(top, g.height) as int;
            let b = min_usize(bot, g.height) as int;
            let grid = scrolled_cells(g.cells, g.width, g.height, top, bot, 0, g.width, rows);
            match scroll_source(t, b, rows, r) {
                Some(src) => {
                    &&& 0 <= src < g.height
                    &&& grid[r] == g.cells[src]
                    &&& scrolled_entry(entries, t, b, rows, r) == entries[src]
                    &&& scrolled_version(versions, t, b, rows, r) == versions[src]
                },
                None => {
                    &&& grid[r] == Seq::new(g.width as nat, |c: int| blank_cell())
                    &&& scrolled_entry(entries, t, b, rows, r) is None
                    &&& scrolled_version(versions, t, b, rows, r) == 0
                },
            }
        }),
{
    let t = min_usize(top, g.height) as int;
    let b = min_usize(bot, g.height) as int;
    let grid = scrolled_cells(g.cells, g.width, g.height, top, bot, 0, g.width, rows);
    if g.width == 0 {
        assert(grid == g.cells);
        match scroll_source(t, b, rows, r) {
            Some(src) => {
                assert(grid[r] =~= g.cells[src]);
            },
            None => {
                assert(grid[r] =~= Seq::new(g.width as nat, |c: int| blank_cell()));
            },
        }
    } else {
        if rows > 0 {
            assert(#[verifier::truncate] (rows as usize) == rows as int);
        } else {
            assert(#[verifier::truncate] ((-rows) as usize) == -(rows as int));
        }
        match scroll_source(t, b, rows, r) {
            Some(src) => {
                assert(grid[r] =~= g.cells[src]);
            },
            None => {
                assert(grid[r] =~= Seq::new(g.width as nat, |c: int| blank_cell()));
            },
        }
    }
}

/// A row stored with the grid's current version needs no new shaping, and
/// storing it leaves the other rows as dirty or clean as they were.
pub proof fn lemma_stored_row_is_clean<R>(
    rows: Seq<Option<R>>,
    versions: Seq<u32>,
    r: int,
    entry: R,
    v: u32,
    other: int,
    w: u32,
)
    requires
        rows.len() == versions.len(),
        0 <= r < rows.len(),
        other != r,
    ensures
        !row_dirty(rows.update(r, Some(entry)), versions.update(r, v), r, v),
        row_dirty(rows.update(r, Some(entry)), versions.update(r, v), other, w) == row_dirty(
            rows,
            versions,
            other,
            w,
        ),
{
}

/// A cache that was just emptied for a new size shapes every row again,
/// whatever version the grid's rows have.
pub proof fn lemma_fresh_rows_are_dirty<R>(height: nat, r: int, v: u32)
    ensures
        row_dirty(Seq::new(height, |i: int| None::<R>), Seq::new(height, |i: int| 0u32), r, v),
{
}

/// The title shown for a title already shown is the same: formatting a
/// title twice changes nothing.
pub proof fn lemma_format_title_idempotent(raw: Seq<char>)
    ensures
        title_for(title_for(raw)) == title_for(raw),
{
    reveal_strlit("Zenvi");
    reveal_strlit(" - Zenvi");
    reveal_strlit(" - NVIM");
    reveal_strlit(" - Nvim");
    reveal_strlit(" - nvim");
    reveal_strlit("nvim");
    let t = trimmed(raw);
    lemma_trimmed_ends(raw);
    let res = title_for(raw);
    if t.len() == 0 || eq_ignore_ascii_case(t, "nvim"@) {
        let z = "Zenvi"@;
        assert(!is_space(z[0]) && !is_space(z.last()));
        lemma_trimmed_fixed(z);
    } else if ends_with(t, " - NVIM"@) || ends_with(t, " - Nvim"@) || ends_with(t, " - nvim"@) {
        let p = t.subrange(0, t.len() - 7);
        assert(res == p + " - Zenvi"@);
        assert(t.len() > 7) by {
            if t.len() == 7 {
                assert(t.subrange(t.len() - 7, t.len() as int)[0] == t[0]);
            }
        }
        assert(res[0] == t[0]);
        assert(res.last() == 'i');
        lemma_trimmed_fixed(res);
        assert(res.subrange(res.len() - 7, res.len() as int)[0] == '-');
    } else {
        lemma_trimmed_fixed(t);
    }
}

/// An integer read back from the value built for it is the same integer,
/// whether read as a signed or (when not negative) an unsigned one.
pub proof fn lemma_int_roundtrip(n: i64, m: u64)
    ensures
        int_view(n as int).to_i64() == Some(n),
        n >= 0 ==> int_view(n as int).to_u64() == Some(n as u64),
        n < 0 ==> int_view(n as int).to_u64() is None,
        int_view(m as int).to_u64() == Some(m),
        int_view(m as int).to_i64() == (if m <= i64::MAX {
            Some(m as i64)
        } else {
            None::<i64>
        }),
{
}

/// A `redraw` batch can be split anywhere: applying its two parts one after
/// the other gives the state and the frame count of applying it whole.
pub proof fn lemma_batch_split(s: NvimStateView, a: Seq<ValueView>, b: Seq<ValueView>)
    ensures
        batch_state(batch_state(s, a), b) == batch_state(s, a + b),
        batch_flushes(a) + batch_flushes(b) == batch_flushes(a + b),
    decreases b.len(),
{
    if b.len() == 0 {
        assert(a + b =~= a);
    } else {
        lemma_batch_split(s, a, b.drop_last());
        assert((a + b).drop_last() =~= a + b.drop_last());
        assert((a + b).last() == b.last());
    }
}

/// The content cache never grows past its limit: remembering a line in a
/// cache within the limit leaves it within the limit.
pub proof fn lemma_content_cache_bounded<S>(m: Map<u64, S>, hash: u64, shaped: S)
    requires
        m.dom().finite(),
        m.len() <= CONTENT_CACHE_LIMIT,
    ensures
        ({
            let kept = if m.len() >= CONTENT_CACHE_LIMIT {
                Map::<u64, S>::empty()
            } else {
                m
            };
            kept.insert(hash, shaped).len() <= CONTENT_CACHE_LIMIT
        }),
{
    let kept = if m.len() >= CONTENT_CACHE_LIMIT {
        Map::<u64, S>::empty()
    } else {
        m
    };
    assert(kept.dom().finite());
    if kept.dom().contains(hash) {
        assert(kept.insert(hash, shaped).dom() =~= kept.dom());
    } else {
        assert(kept.insert(hash, shaped).dom() =~= kept.dom().insert(hash));
    }
}

/// Neovim never has more than one drag request of the front end to answer:
/// a move sends a drag only when none is in flight (and one is in flight
/// after it), a move while one is in flight sends nothing and keeps it in
/// flight, and the answer to a drag sends at most the one waiting drag.
pub proof fn lemma_one_drag_in_flight(t: DragTracker, col: usize, row: usize, mods: Modifiers)
    requires
        t.wf(),
    ensures
        after_move(t, col, row, mods).0.wf(),
        after_move(t, col, row, mods).1 is Some ==> !t.is_drag_in_flight && after_move(
            t,
            col,
            row,
            mods,
        ).0.is_drag_in_flight,
        t.is_drag_in_flight ==> after_move(t, col, row, mods).1 is None && after_move(
            t,
            col,
            row,
            mods,
        ).0.is_drag_in_flight,
        after_finish(t).0.wf(),
        after_finish(t).1 is Some ==> after_finish(t).0.is_drag_in_flight && after_finish(
            t,
        ).0.pending_mouse_drag is None,
        after_finish(t).1 is None ==> !after_finish(t).0.is_drag_in_flight,
{
}

/// Exactly the application's own shortcuts and the bare modifier keys stay
/// away from Neovim: every other key press is sent.
pub proof fn lemma_only_reserved_keys_stay(
    k: Seq<char>,
    ctrl: bool,
    alt: bool,
    shift: bool,
    cmd: bool,
    os: TargetOs,
)
    ensures
        key_to_nvim(k, ctrl, alt, shift, cmd, os) is None <==> (is_system_shortcut(
            k,
            ctrl,
            alt,
            shift,
            cmd,
            os,
        ) || is_modifier_key(k)),
{
}

/// Whether redraw events of this kind work on one grid.
pub open spec fn is_grid_event(kind: RedrawKind) -> bool {
    kind == RedrawKind::GridResize || kind == RedrawKind::GridLine || kind
        == RedrawKind::GridCursorGoto || kind == RedrawKind::GridScroll || kind
        == RedrawKind::GridClear || kind == RedrawKind::GridDestroy
}

/// A redraw call changes only the grid it names (its first argument, 1 by
/// default): every other grid is kept as it was, and events that are not
/// about a grid leave all grids alone.
pub proof fn lemma_call_touches_only_its_grid(
    s: NvimStateView,
    kind: RedrawKind,
    call: ValueView,
    k: u64,
)
    ensures
        !is_grid_event(kind) ==> apply_call(s, kind, call).grids == s.grids,
        (call.to_array() matches Some(args) && k != target_grid(args)) ==> {
            &&& apply_call(s, kind, call).grids.contains_key(k) == s.grids.contains_key(k)
            &&& s.grids.contains_key(k) ==> apply_call(s, kind, call).grids[k] == s.grids[k]
        },
{
}

/// The place of a modifier letter in Neovim's mouse modifier string.
pub open spec fn mouse_mod_rank(c: char) -> int {
    if c == 'C' {
        0
    } else if c == 'S' {
        1
    } else if c == 'M' {
        2
    } else {
        3
    }
}

/// The modifier string of a mouse event names each held modifier and no
/// other: `C` exactly when Ctrl is held, `S` for Shift, `M` for Alt and
/// `D` for the platform key, each once, in the order `C`, `S`, `M`, `D`.
pub proof fn lemma_mouse_mods_name_held_keys(control: bool, shift: bool, alt: bool, platform: bool)
    ensures
        mouse_mods(control, shift, alt, platform).contains('C') == control,
        mouse_mods(control, shift, alt, platform).contains('S') == shift,
        mouse_mods(control, shift, alt, platform).contains('M') == alt,
        mouse_mods(control, shift, alt, platform).contains('D') == platform,
        forall|i: int|
            0 <= i < mouse_mods(control, shift, alt, platform).len() ==> {
                let c = #[trigger] mouse_mods(control, shift, alt, platform)[i];
                c == 'C' || c == 'S' || c == 'M' || c == 'D'
            },
        forall|i: int, j: int|
            0 <= i < j < mouse_mods(control, shift, alt, platform).len() ==> mouse_mod_rank(
                #[trigger] mouse_mods(control, shift, alt, platform)[i],
            ) < mouse_mod_rank(#[trigger] mouse_mods(control, shift, alt, platform)[j]),
{
    let m = mouse_mods(control, shift, alt, platform);
    let a = if control { seq!['C'] } else { Seq::<char>::empty() };
    let b = if shift { seq!['S'] } else { Seq::<char>::empty() };
    let c = if alt { seq!['M'] } else { Seq::<char>::empty() };
    let d = if platform { seq!['D'] } else { Seq::<char>::empty() };
    let mut want: Seq<char> = Seq::empty();
    if control { want = want.push('C'); }
    if shift { want = want.push('S'); }
    if alt { want = want.push('M'); }
    if platform { want = want.push('D'); }
    assert(m =~= want);
    assert(m.contains('C') == control) by {
        if control { assert(m[0] == 'C'); }
    }
    assert(m.contains('S') == shift) by {
        if shift { assert(m[a.len() as int] == 'S'); }
    }
    assert(m.contains('M') == alt) by {
        if alt { assert(m[(a.len() + b.len()) as int] == 'M'); }
    }
    assert(m.contains('D') == platform) by {
        if platform { assert(m[(a.len() + b.len() + c.len()) as int] == 'D'); }
    }
}

/// The family that a `guifont` value selects is that of its first entry
/// that designates an installed family (exactly, loosely, or as the
/// generic `monospace`), whatever the later entries name; when no entry
/// designates one, it is the default family.
pub proof fn lemma_first_installed_entry_wins(
    guifont: Seq<char>,
    installed: Seq<Seq<char>>,
    default: Seq<char>,
    j: int,
)
    ensures
        ({
            let es = guifont_entries_spec(guifont);
            0 <= j < es.len() && (forall|i: int|
                0 <= i < j ==> !entry_resolves(#[trigger] es[i], installed, default))
                && entry_resolves(es[j], installed, default) ==> resolved_family(
                guifont,
                installed,
                default,
            ) == installed_family(es[j].family->0, installed, default)->0
        }),
        (forall|i: int|
            0 <= i < guifont_entries_spec(guifont).len() ==> !entry_resolves(
                #[trigger] guifont_entries_spec(guifont)[i],
                installed,
                default,
            )) ==> resolved_family(guifont, installed, default) == default,
{
    let es = guifont_entries_spec(guifont);
    if 0 <= j < es.len() && (forall|i: int| 0 <= i < j ==> !entry_resolves(#[trigger] es[i], installed, default))
        && entry_resolves(es[j], installed, default) {
        lemma_first_resolved_at(es, installed, default, j);
    }
    if forall|i: int| 0 <= i < es.len() ==> !entry_resolves(#[trigger] es[i], installed, default) {
        lemma_first_resolved_none(es, installed, default);
    }
}

/// Whether a `guifont` entry names a family that designates an installed one.
pub open spec fn entry_resolves(e: GuiFontView, installed: Seq<Seq<char>>, default: Seq<char>) -> bool {
    e.family is Some && installed_family(e.family->0, installed, default) is Some
}

proof fn lemma_first_resolved_at(es: Seq<GuiFontView>, installed: Seq<Seq<char>>, default: Seq<char>, j: int)
    requires
        0 <= j < es.len(),
        forall|i: int| 0 <= i < j ==> !entry_resolves(#[trigger] es[i], installed, default),
        entry_resolves(es[j], installed, default),
    ensures
        first_resolved(es, installed, default) == installed_family(es[j].family->0, installed, default),
    decreases j,
{
    if j > 0 {
        assert(!entry_resolves(es[0], installed, default));
        let rest = es.drop_first();
        assert forall|i: int| 0 <= i < j - 1 implies !entry_resolves(#[trigger] rest[i], installed, default) by {
            assert(rest[i] == es[i + 1]);
        }
        assert(rest[j - 1] == es[j]);
        lemma_first_resolved_at(rest, installed, default, j - 1);
    }
}

proof fn lemma_first_resolved_none(es: Seq<GuiFontView>, installed: Seq<Seq<char>>, default: Seq<char>)
    requires
        forall|i: int| 0 <= i < es.len() ==> !entry_resolves(#[trigger] es[i], installed, default),
    ensures
        first_resolved(es, installed, default) is None,
    decreases es.len(),
{
    if es.len() > 0 {
        assert(!entry_resolves(es[0], installed, default));
        let rest = es.drop_first();
        assert forall|i: int| 0 <= i < rest.len() implies !entry_resolves(#[trigger] rest[i], installed, default) by {
            assert(rest[i] == es[i + 1]);
        }
        lemma_first_resolved_none(rest, installed, default);
    }
}

/// The first span of a row is drawn in the colours and styles of the
/// row's first cell: the highlight's foreground and background (the
/// defaults where it has none), swapped when the highlight asks for
/// reverse video; on the cursor they are swapped too, except that a
/// cursor whose text colour would be the default background is drawn
/// black on white.  Bold, italic and underline are the highlight's, and
/// the span is the cursor's exactly when the cell is.
pub proof fn lemma_first_span_colors(
    row: Seq<CellView>,
    cursor_col: Option<int>,
    highlights: Map<u32, HighlightAttr>,
    dfg: u32,
    dbg: u32,
)
    requires
        row.len() > 0,
        row[0].width > 0 || row[0].text.len() > 0,
    ensures
        ({
            let spans = spans_upto(row, row.len() as int, cursor_col, highlights, dfg, dbg);
            let a = highlight_of(highlights, row[0].hl_id);
            let fg = match a.foreground {
                Some(c) => c,
                None => dfg,
            };
            let bg = match a.background {
                Some(c) => c,
                None => dbg,
            };
            &&& spans.len() > 0
            &&& spans[0].bold == a.bold && spans[0].italic == a.italic && spans[0].underline
                == a.underline
            &&& spans[0].is_cursor == (cursor_col == Some(0int))
            &&& cursor_col != Some(0int) ==> spans[0].fg == (if a.reverse { bg } else { fg })
                && spans[0].bg == (if a.reverse { fg } else { bg })
            &&& cursor_col == Some(0int) ==> (if fg == dbg {
                spans[0].fg == 0x000000 && spans[0].bg == 0xffffff
            } else {
                spans[0].fg == bg && spans[0].bg == fg
            })
        }),
{
    lemma_first_span_kept(row, row.len() as int, cursor_col, highlights, dfg, dbg);
    let s0 = spans_upto(row, 0, cursor_col, highlights, dfg, dbg);
    assert(s0 =~= Seq::<SpanView>::empty());
    let s1 = spans_upto(row, 1, cursor_col, highlights, dfg, dbg);
    assert(s1 == span_step(s0, row[0], cursor_col == Some(0int), highlights, dfg, dbg));
    let a = highlight_of(highlights, row[0].hl_id);
    let colors = cell_colors(a, cursor_col == Some(0int), dfg, dbg);
    assert(s1[0].fg == colors.0 && s1[0].bg == colors.1);
}

proof fn lemma_first_span_kept(
    row: Seq<CellView>,
    n: int,
    cursor_col: Option<int>,
    highlights: Map<u32, HighlightAttr>,
    dfg: u32,
    dbg: u32,
)
    requires
        1 <= n <= row.len(),
        row[0].width > 0 || row[0].text.len() > 0,
    ensures
        spans_upto(row, n, cursor_col, highlights, dfg, dbg).len() > 0,
        spans_upto(row, n, cursor_col, highlights, dfg, dbg)[0].bold == spans_upto(
            row,
            1,
            cursor_col,
            highlights,
            dfg,
            dbg,
        )[0].bold,
        spans_upto(row, n, cursor_col, highlights, dfg, dbg)[0].italic == spans_upto(
            row,
            1,
            cursor_col,
            highlights,
            dfg,
            dbg,
        )[0].italic,
        spans_upto(row, n, cursor_col, highlights, dfg, dbg)[0].underline == spans_upto(
            row,
            1,
            cursor_col,
            highlights,
            dfg,
            dbg,
        )[0].underline,
        spans_upto(row, n, cursor_col, highlights, dfg, dbg)[0].is_cursor == spans_upto(
            row,
            1,
            cursor_col,
            highlights,
            dfg,
            dbg,
        )[0].is_cursor,
        spans_upto(row, n, cursor_col, highlights, dfg, dbg)[0].fg == spans_upto(
            row,
            1,
            cursor_col,
            highlights,
            dfg,
            dbg,
        )[0].fg,
        spans_upto(row, n, cursor_col, highlights, dfg, dbg)[0].bg == spans_upto(
            row,
            1,
            cursor_col,
            highlights,
            dfg,
            dbg,
        )[0].bg,
    decreases n,
{
    if n > 1 {
        lemma_first_span_kept(row, n - 1, cursor_col, highlights, dfg, dbg);
    } else {
        assert(spans_upto(row, 0, cursor_col, highlights, dfg, dbg) =~= Seq::<SpanView>::empty());
    }
}

/// A `grid_line` cell entry `[text]` or `[text, hl_id]`: one cell, with or
/// without its highlight id.
pub open spec fn single_cell_entry(e: ValueView) -> bool {
    match e.to_array() {
        Some(info) => 1 <= info.len() <= 2 && info[0].to_str() is Some,
        None => false,
    }
}

/// The text of a cell entry.
pub open spec fn entry_text(e: ValueView) -> Seq<char> {
    e.to_array()->0[0].to_str()->0
}

/// The highlight id that the nearest of `entries`, counting back from the
/// last, gives (`hl` when none gives one).
pub open spec fn nearest_given_hl(hl: u32, entries: Seq<ValueView>) -> u32
    decreases entries.len(),
{
    if entries.len() == 0 {
        hl
    } else if entries.last().to_array()->0.len() >= 2 {
        u64_or(entries.last().to_array()->0[1], 0) as u32
    } else {
        nearest_given_hl(hl, entries.drop_last())
    }
}

/// A `grid_line` call of one-cell entries writes them to consecutive
/// columns from its start column, each with its text and the highlight id
/// of the nearest entry of the call, itself or before it, that gives one
/// (0 when none does); the rest of the row is kept.
pub proof fn lemma_grid_line_carries_highlight(s: NvimStateView, args: Seq<ValueView>)
    requires
        args.len() >= 4,
        args[3].to_array() is Some,
        s.grids.contains_key(u64_or(args[0], 1)),
        s.grids[u64_or(args[0], 1)].wf(),
        (u64_or(args[1], 0) as usize) < s.grids[u64_or(args[0], 1)].height,
        forall|i: int|
            0 <= i < args[3].to_array()->0.len() ==> single_cell_entry(
                #[trigger] args[3].to_array()->0[i],
            ),
        (u64_or(args[2], 0) as usize) + args[3].to_array()->0.len()
            <= s.grids[u64_or(args[0], 1)].width,
    ensures
        ({
            let id = u64_or(args[0], 1);
            let row = (u64_or(args[1], 0) as usize) as int;
            let col = (u64_or(args[2], 0) as usize) as int;
            let entries = args[3].to_array()->0;
            let before = s.grids[id].cells[row];
            let after = apply_grid_line(s, args).grids[id].cells[row];
            &&& after.len() == before.len()
            &&& forall|i: int|
                0 <= i < entries.len() ==> #[trigger] after[col + i] == (CellView {
                    text: entry_text(entries[i]),
                    hl_id: nearest_given_hl(0, entries.take(i + 1)),
                    width: display_width(entry_text(entries[i])),
                })
            &&& forall|c: int|
                0 <= c < before.len() && !(col <= c < col + entries.len()) ==> #[trigger] after[c]
                    == before[c]
        }),
{
    let id = u64_or(args[0], 1);
    let row = (u64_or(args[1], 0) as usize) as int;
    let g = s.grids[id];
    lemma_line_cells_single(g.cells[row], (u64_or(args[2], 0) as usize) as int, 0, args[3].to_array()->0);
}

proof fn lemma_line_cells_single(row: Seq<CellView>, col: int, hl: u32, entries: Seq<ValueView>)
    requires
        0 <= col,
        col + entries.len() <= row.len(),
        forall|i: int| 0 <= i < entries.len() ==> single_cell_entry(#[trigger] entries[i]),
    ensures
        line_cells(row, col, hl, entries).0.len() == row.len(),
        line_cells(row, col, hl, entries).1 == col + entries.len(),
        line_cells(row, col, hl, entries).2 == nearest_given_hl(hl, entries),
        forall|i: int|
            0 <= i < entries.len() ==> #[trigger] line_cells(row, col, hl, entries).0[col + i]
                == (CellView {
                text: entry_text(entries[i]),
                hl_id: nearest_given_hl(hl, entries.take(i + 1)),
                width: display_width(entry_text(entries[i])),
            }),
        forall|c: int|
            0 <= c < row.len() && !(col <= c < col + entries.len()) ==> #[trigger] line_cells(
                row,
                col,
                hl,
                entries,
            ).0[c] == row[c],
    decreases entries.len(),
{
    if entries.len() > 0 {
        let n = entries.len() as int;
        let init = entries.drop_last();
        assert forall|i: int| 0 <= i < init.len() implies single_cell_entry(#[trigger] init[i]) by {
            assert(init[i] == entries[i]);
        }
        lemma_line_cells_single(row, col, hl, init);
        let prev = line_cells(row, col, hl, init);
        let e = entries.last();
        assert(single_cell_entry(entries[n - 1]));
        let info = e.to_array()->0;
        assert(entries.take(n) =~= entries);
        let now = line_cells(row, col, hl, entries);
        assert(now == line_step(prev.0, prev.1, prev.2, e));
        assert forall|i: int| 0 <= i < n implies #[trigger] now.0[col + i] == (CellView {
            text: entry_text(entries[i]),
            hl_id: nearest_given_hl(hl, entries.take(i + 1)),
            width: display_width(entry_text(entries[i])),
        }) by {
            if i < n - 1 {
                assert(entries.take(i + 1) =~= init.take(i + 1));
                assert(entries[i] == init[i]);
                assert(now.0[col + i] == prev.0[col + i]);
            }
        }
    }
}

/// A `grid_line` cell entry `[text, hl_id, repeat]` writes its text with
/// that highlight to `repeat` consecutive cells from the start column (as
/// many as the row holds), and keeps the rest of the row.
pub proof fn lemma_grid_line_repeats_cell(s: NvimStateView, args: Seq<ValueView>, e: ValueView)
    requires
        args.len() >= 4,
        args[3].to_array() == Some(seq![e]),
        e.to_array() is Some,
        e.to_array()->0.len() == 3,
        e.to_array()->0[0].to_str() is Some,
        u64_or(e.to_array()->0[2], 1) <= usize::MAX,
        s.grids.contains_key(u64_or(args[0], 1)),
        s.grids[u64_or(args[0], 1)].wf(),
        (u64_or(args[1], 0) as usize) < s.grids[u64_or(args[0], 1)].height,
    ensures
        ({
            let id = u64_or(args[0], 1);
            let row = (u64_or(args[1], 0) as usize) as int;
            let col = (u64_or(args[2], 0) as usize) as int;
            let info = e.to_array()->0;
            let text = info[0].to_str()->0;
            let n = u64_or(info[2], 1) as int;
            let before = s.grids[id].cells[row];
            let after = apply_grid_line(s, args).grids[id].cells[row];
            &&& after.len() == before.len()
            &&& forall|c: int|
                0 <= c < before.len() ==> #[trigger] after[c] == (if col <= c < col + n {
                    CellView {
                        text,
                        hl_id: u64_or(info[1], 0) as u32,
                        width: display_width(text),
                    }
                } else {
                    before[c]
                })
        }),
{
    let id = u64_or(args[0], 1);
    let row = (u64_or(args[1], 0) as usize) as int;
    let col = (u64_or(args[2], 0) as usize) as int;
    let entries = seq![e];
    let r = s.grids[id].cells[row];
    assert(entries.drop_last() =~= Seq::<ValueView>::empty());
    assert(entries.last() == e);
    assert(line_cells(r, col, 0, entries.drop_last()) == (r, col, 0u32));
    assert(line_cells(r, col, 0, entries) == line_step(r, col, 0, e));
    let count = u64_or(e.to_array()->0[2], 1);
    assert((count as usize) as int == count as int);
}

/// When the first entry of a `guifont` value names an installed family
/// exactly, that family is selected; when it names the generic
/// `monospace` (in any ASCII case), the default family is.
pub proof fn lemma_first_entry_installed_selected(
    guifont: Seq<char>,
    installed: Seq<Seq<char>>,
    default: Seq<char>,
)
    ensures
        ({
            let es = guifont_entries_spec(guifont);
            es.len() > 0 && es[0].family is Some ==> {
                let name = es[0].family->0;
                &&& eq_ignore_ascii_case(name, "monospace"@) ==> resolved_family(
                    guifont,
                    installed,
                    default,
                ) == default
                &&& !eq_ignore_ascii_case(name, "monospace"@) && installed.contains(name)
                    ==> resolved_family(guifont, installed, default) == name
            }
        }),
{
    let es = guifont_entries_spec(guifont);
    if es.len() > 0 && es[0].family is Some {
        let name = es[0].family->0;
        if eq_ignore_ascii_case(name, "monospace"@) || installed.contains(name) {
            assert(entry_resolves(es[0], installed, default));
            lemma_first_installed_entry_wins(guifont, installed, default, 0);
        }
    }
}

} // verus!
