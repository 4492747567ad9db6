//! General laws of the automaton, stated over the grid model of
//! `crate::rules` and proved once for every grid, not just for sampled
//! inputs.

use crate::engine::Universe;
use crate::rules::{
    grid_index, grid_wf, lemma_row_major_bound, live_count, offset_live, tick_cell, tick_grid,
    tick_iter, tock_cell, tock_grid, wrap_coord,
};
use vstd::arithmetic::div_mod::{
    lemma_div_pos_is_pos, lemma_fundamental_div_mod_converse, lemma_mod_division_less_than_divisor,
    lemma_multiply_divide_lt, lemma_small_mod,
};
use vstd::prelude::*;

verus! {

/// The snapshot of a well-formed engine always holds exactly
/// `width * height` cells.
pub proof fn lemma_snapshot_length(u: &Universe)
    requires
        u.wf(),
    ensures
        u@.cells.len() == u@.width * u@.height,
{
}

/// Toroidal wrap keeps every neighbor coordinate inside the grid, and at
/// the corner `(0, 0)` the backward offsets wrap to the opposite edges:
/// the row offset `h - 1` reaches row `h - 1`, the column offset `w - 1`
/// reaches column `w - 1`, and the zero offset stays in place.
pub proof fn lemma_toroidal_wrap(w: int, h: int)
    requires
        1 <= w,
        1 <= h,
    ensures
        forall|x: int, d: int| 0 <= x < h && 0 <= d ==> 0 <= #[trigger] wrap_coord(x, d, h) < h,
        forall|x: int, d: int| 0 <= x < w && 0 <= d ==> 0 <= #[trigger] wrap_coord(x, d, w) < w,
        wrap_coord(0, h - 1, h) == h - 1,
        wrap_coord(0, w - 1, w) == w - 1,
        wrap_coord(0, 0, w) == 0,
{
    assert forall|x: int, d: int| 0 <= x < h && 0 <= d implies 0 <= #[trigger] wrap_coord(
        x,
        d,
        h,
    ) < h by {
        lemma_mod_division_less_than_divisor(x + d, h);
    };
    assert forall|x: int, d: int| 0 <= x < w && 0 <= d implies 0 <= #[trigger] wrap_coord(
        x,
        d,
        w,
    ) < w by {
        lemma_mod_division_less_than_divisor(x + d, w);
    };
    lemma_small_mod((h - 1) as nat, h as nat);
    lemma_small_mod((w - 1) as nat, w as nat);
    lemma_small_mod(0nat, w as nat);
}

/// The corner cell `(0, 0)` of a grid with at least two rows and two
/// columns really has the opposite corner and the opposite edges among its
/// neighbors: the offsets `h - 1` and `w - 1` contribute exactly the cells
/// at `(h - 1, w - 1)`, `(h - 1, 0)` and `(0, w - 1)` to its count.
pub proof fn lemma_corner_neighbors(cells: Seq<u8>, w: int, h: int)
    requires
        grid_wf(cells, w, h),
        2 <= w,
        2 <= h,
    ensures
        offset_live(cells, w, h, 0, 0, h - 1, w - 1) == (if cells[grid_index(h - 1, w - 1, w)] == 7 {
            1int
        } else {
            0int
        }),
        offset_live(cells, w, h, 0, 0, h - 1, 0) == (if cells[grid_index(h - 1, 0, w)] == 7 {
            1int
        } else {
            0int
        }),
        offset_live(cells, w, h, 0, 0, 0, w - 1) == (if cells[grid_index(0, w - 1, w)] == 7 {
            1int
        } else {
            0int
        }),
{
    lemma_small_mod((h - 1) as nat, h as nat);
    lemma_small_mod((w - 1) as nat, w as nat);
    lemma_small_mod(0nat, h as nat);
    lemma_small_mod(0nat, w as nat);
}

/// A live-neighbor count is always between 0 and 8: each of the eight
/// neighbor offsets contributes at most one, and the zero offset never
/// counts.
pub proof fn lemma_live_count_bound(cells: Seq<u8>, w: int, h: int, row: int, col: int)
    ensures
        0 <= live_count(cells, w, h, row, col) <= 8,
{
}

/// The rule has no hidden inputs: advancing two identical grids of the
/// same dimensions yields identical grids.
pub proof fn lemma_tick_deterministic(a: Seq<u8>, b: Seq<u8>, w: int, h: int)
    requires
        a == b,
    ensures
        tick_grid(a, w, h) == tick_grid(b, w, h),
{
}

/// Birth: a fully dead cell (0) with exactly 3 fully alive neighbors is
/// fully alive (7) after one generation step.
pub proof fn lemma_birth(cells: Seq<u8>, w: int, h: int, row: int, col: int)
    requires
        grid_wf(cells, w, h),
        0 <= row < h,
        0 <= col < w,
        cells[grid_index(row, col, w)] == 0,
        live_count(cells, w, h, row, col) == 3,
    ensures
        tick_grid(cells, w, h)[grid_index(row, col, w)] == 7,
{
    lemma_row_major_bound(row, col, w, h);
    lemma_fundamental_div_mod_converse(grid_index(row, col, w), w, row, col);
}

/// Survival: a fully alive cell (7) with 2 or 3 fully alive neighbors is
/// still fully alive after one generation step.
pub proof fn lemma_survival(cells: Seq<u8>, w: int, h: int, row: int, col: int)
    requires
        grid_wf(cells, w, h),
        0 <= row < h,
        0 <= col < w,
        cells[grid_index(row, col, w)] == 7,
        live_count(cells, w, h, row, col) == 2 || live_count(cells, w, h, row, col) == 3,
    ensures
        tick_grid(cells, w, h)[grid_index(row, col, w)] == 7,
{
    lemma_row_major_bound(row, col, w, h);
    lemma_fundamental_div_mod_converse(grid_index(row, col, w), w, row, col);
}

/// Fade decay: a cell mid-transition at intensity 4 decays to 3 after one
/// generation step, whatever its neighbors do, and a following
/// fade-completion step leaves it at 3, since only 1 and 6 snap.
pub proof fn lemma_fade_decay(cells: Seq<u8>, w: int, h: int, row: int, col: int)
    requires
        grid_wf(cells, w, h),
        0 <= row < h,
        0 <= col < w,
        cells[grid_index(row, col, w)] == 4,
    ensures
        tick_grid(cells, w, h)[grid_index(row, col, w)] == 3,
        tock_grid(tick_grid(cells, w, h))[grid_index(row, col, w)] == 3,
{
    lemma_row_major_bound(row, col, w, h);
    lemma_fundamental_div_mod_converse(grid_index(row, col, w), w, row, col);
}

/// When a grid holds no cell at intensity 1 or 6, the fade-completion step
/// is the identity on the whole grid.
pub proof fn lemma_tock_without_transients_is_identity(cells: Seq<u8>)
    requires
        forall|i: int| 0 <= i < cells.len() ==> cells[i] != 1 && cells[i] != 6,
    ensures
        tock_grid(cells) == cells,
{
    assert forall|i: int| 0 <= i < cells.len() implies tock_grid(cells)[i] == cells[i] by {
        assert(tock_grid(cells)[i] == tock_cell(cells[i]));
    };
    assert(tock_grid(cells) =~= cells);
}

/// In an all-dead grid every neighbor offset lands on a dead cell.
proof fn lemma_offset_live_all_dead(
    cells: Seq<u8>,
    w: int,
    h: int,
    row: int,
    col: int,
    dr: int,
    dc: int,
)
    requires
        grid_wf(cells, w, h),
        0 <= row < h,
        0 <= col < w,
        0 <= dr,
        0 <= dc,
        forall|i: int| 0 <= i < cells.len() ==> cells[i] == 0,
    ensures
        offset_live(cells, w, h, row, col, dr, dc) == 0,
{
    if !(dr == 0 && dc == 0) {
        lemma_mod_division_less_than_divisor(row + dr, h);
        lemma_mod_division_less_than_divisor(col + dc, w);
        lemma_row_major_bound(wrap_coord(row, dr, h), wrap_coord(col, dc, w), w, h);
    }
}

/// An all-dead grid has live-neighbor count 0 everywhere.
pub proof fn lemma_live_count_all_dead(cells: Seq<u8>, w: int, h: int, row: int, col: int)
    requires
        grid_wf(cells, w, h),
        0 <= row < h,
        0 <= col < w,
        forall|i: int| 0 <= i < cells.len() ==> cells[i] == 0,
    ensures
        live_count(cells, w, h, row, col) == 0,
{
    lemma_offset_live_all_dead(cells, w, h, row, col, h - 1, w - 1);
    lemma_offset_live_all_dead(cells, w, h, row, col, h - 1, 0);
    lemma_offset_live_all_dead(cells, w, h, row, col, h - 1, 1);
    lemma_offset_live_all_dead(cells, w, h, row, col, 0, w - 1);
    lemma_offset_live_all_dead(cells, w, h, row, col, 0, 0);
    lemma_offset_live_all_dead(cells, w, h, row, col, 0, 1);
    lemma_offset_live_all_dead(cells, w, h, row, col, 1, w - 1);
    lemma_offset_live_all_dead(cells, w, h, row, col, 1, 0);
    lemma_offset_live_all_dead(cells, w, h, row, col, 1, 1);
}

/// A fully dead grid stays fully dead under any number of generation
/// steps: a birth needs exactly 3 fully alive neighbors, which an all-dead
/// grid cannot supply.
pub proof fn lemma_dead_grid_stable(cells: Seq<u8>, w: int, h: int, n: nat)
    requires
        grid_wf(cells, w, h),
        forall|i: int| 0 <= i < cells.len() ==> cells[i] == 0,
    ensures
        tick_iter(cells, w, h, n) == cells,
    decreases n,
{
    if n > 0 {
        lemma_dead_grid_stable(cells, w, h, (n - 1) as nat);
        assert forall|i: int| 0 <= i < cells.len() implies tick_grid(cells, w, h)[i] == cells[i] by {
            lemma_div_pos_is_pos(i, w);
            lemma_multiply_divide_lt(i, w, h);
            lemma_mod_division_less_than_divisor(i, w);
            lemma_live_count_all_dead(cells, w, h, i / w, i % w);
            assert(tick_grid(cells, w, h)[i] == tick_cell(cells[i], 0));
        };
        assert(tick_grid(cells, w, h) =~= cells);
    }
}

} // verus!
