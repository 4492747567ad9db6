//! The mathematical model of the automaton: what a well-formed grid is,
//! how toroidal neighbor coordinates wrap, how live neighbors are counted,
//! and what one generation step (`tick`) or one fade-completion step
//! (`tock`) does to every cell.

use vstd::prelude::*;

verus! {

/// A grid is a row-major sequence of `width * height` intensity levels,
/// each in the closed range `[0, 7]`, for positive dimensions.
pub open spec fn grid_wf(cells: Seq<u8>, w: int, h: int) -> bool {
    &&& 1 <= w
    &&& 1 <= h
    &&& cells.len() == w * h
    &&& forall|i: int| 0 <= i < cells.len() ==> cells[i] <= 7
}

/// Linear index of the cell at `(row, col)` in a row-major grid of `w`
/// columns: `row * w + col` is the only valid mapping.
pub open spec fn grid_index(row: int, col: int, w: int) -> int {
    row * w + col
}

/// Toroidal wrap of a coordinate: moving a nonnegative offset `d` from
/// coordinate `x` on an axis of extent `m` lands on `(x + d) % m`.
pub open spec fn wrap_coord(x: int, d: int, m: int) -> int {
    (x + d) % m
}

/// Contribution of one neighbor offset to the live-neighbor count of the
/// cell at `(row, col)`: 1 when the wrapped neighbor is fully alive (7),
/// 0 otherwise. The zero offset is the cell itself and never counts.
pub open spec fn offset_live(
    cells: Seq<u8>,
    w: int,
    h: int,
    row: int,
    col: int,
    dr: int,
    dc: int,
) -> int {
    if dr == 0 && dc == 0 {
        0
    } else if cells[wrap_coord(row, dr, h) * w + wrap_coord(col, dc, w)] == 7 {
        1
    } else {
        0
    }
}

/// Number of fully alive cells in the Moore neighborhood of `(row, col)`,
/// with toroidal wrap. The row offsets range over `{h - 1, 0, 1}` and the
/// column offsets over `{w - 1, 0, 1}` (adding `m - 1` modulo `m` is a step
/// of -1), with the zero offset excluded.
pub open spec fn live_count(cells: Seq<u8>, w: int, h: int, row: int, col: int) -> int {
    offset_live(cells, w, h, row, col, h - 1, w - 1) + offset_live(cells, w, h, row, col, h - 1, 0)
        + offset_live(cells, w, h, row, col, h - 1, 1) + offset_live(
        cells,
        w,
        h,
        row,
        col,
        0,
        w - 1,
    ) + offset_live(cells, w, h, row, col, 0, 0) + offset_live(cells, w, h, row, col, 0, 1)
        + offset_live(cells, w, h, row, col, 1, w - 1) + offset_live(cells, w, h, row, col, 1, 0)
        + offset_live(cells, w, h, row, col, 1, 1)
}

/// One generation step for a single cell, given its current intensity and
/// its live-neighbor count `n`:
/// - fully alive (7) survives with 2 or 3 live neighbors, otherwise it
///   starts dying (6);
/// - fully dead (0) is born (7) with exactly 3 live neighbors, otherwise it
///   stays dead;
/// - a cell mid-transition decays one step toward 0, whatever `n` is.
pub open spec fn tick_cell(cell: u8, n: int) -> u8 {
    if cell == 7 {
        if n == 2 || n == 3 {
            7
        } else {
            6
        }
    } else if cell == 0 {
        if n == 3 {
            7
        } else {
            0
        }
    } else {
        (cell - 1) as u8
    }
}

/// One generation step for a whole grid: every cell is rewritten from the
/// same pre-step snapshot, so the result depends only on that snapshot.
pub open spec fn tick_grid(cells: Seq<u8>, w: int, h: int) -> Seq<u8> {
    Seq::new(cells.len(), |i: int| tick_cell(cells[i], live_count(cells, w, h, i / w, i % w)))
}

/// The fade-completion step for a single cell: a just-born cell (1) snaps
/// fully alive (7), a just-dying cell (6) snaps fully dead (0), and every
/// other intensity passes through unchanged.
pub open spec fn tock_cell(cell: u8) -> u8 {
    if cell == 1 {
        7
    } else if cell == 6 {
        0
    } else {
        cell
    }
}

/// The fade-completion step for a whole grid, applied cell by cell.
pub open spec fn tock_grid(cells: Seq<u8>) -> Seq<u8> {
    Seq::new(cells.len(), |i: int| tock_cell(cells[i]))
}

/// The deterministic seed selector: the cell at linear index `i` starts on
/// the live side of the pattern when `i` is even or divisible by 7.
pub open spec fn seed_live(i: int) -> bool {
    i % 2 == 0 || i % 7 == 0
}

/// The initial grid of the instantaneous variant: selected cells start
/// fully alive (7), the rest fully dead (0).
pub open spec fn seed_grid(w: int, h: int) -> Seq<u8> {
    Seq::new((w * h) as nat, |i: int| if seed_live(i) { 7u8 } else { 0u8 })
}

/// The initial grid of the fading variant: every cell starts mid-transition,
/// selected cells just born (1), the rest just dying (6).
pub open spec fn seed_grid_fading(w: int, h: int) -> Seq<u8> {
    Seq::new((w * h) as nat, |i: int| if seed_live(i) { 1u8 } else { 6u8 })
}

/// The glyph a cell renders as: `#` when fully alive, `.` otherwise.
pub open spec fn glyph(cell: u8) -> char {
    if cell == 7 {
        '#'
    } else {
        '.'
    }
}

/// The grid after `n` generation steps.
pub open spec fn tick_iter(cells: Seq<u8>, w: int, h: int, n: nat) -> Seq<u8>
    decreases n,
{
    if n == 0 {
        cells
    } else {
        tick_grid(tick_iter(cells, w, h, (n - 1) as nat), w, h)
    }
}

/// Row-major indexing stays inside the grid: a cell at row `r` of `bound_r`
/// rows and column `c` of `w` columns has linear index below `bound_r * w`.
pub proof fn lemma_row_major_bound(r: int, c: int, w: int, bound_r: int)
    by (nonlinear_arith)
    requires
        0 <= c < w,
        0 <= r < bound_r,
    ensures
        0 <= r * w + c < bound_r * w,
        0 <= r * w + c < w * bound_r,
{
}

} // verus!
