//! The automaton engine: a fixed-size toroidal grid of intensity levels,
//! advanced one generation at a time. Each advance reads only the
//! pre-advance snapshot and installs a fully computed new grid, so a
//! reader never sees a partially updated generation.

use crate::rules::{
    glyph, grid_index, grid_wf, lemma_row_major_bound, live_count, offset_live, seed_grid,
    seed_grid_fading, seed_live, tick_cell, tick_grid, tock_cell, tock_grid,
};
use vstd::prelude::*;
use vstd::string::StringExecFns;

verus! {

/// Construction was asked for a grid with zero width or zero height.
#[derive(Clone, Copy, Debug, PartialEq, Eq, Structural)]
pub struct InvalidDimension;

/// The abstract state of an engine: its dimensions and the row-major
/// sequence of cell intensities.
pub ghost struct UniverseView {
    pub width: nat,
    pub height: nat,
    pub cells: Seq<u8>,
}

/// The automaton engine. It exclusively owns its cell sequence; the cells
/// change only through `tick` and `tock`.
pub struct Universe {
    width: u32,
    height: u32,
    cells: Vec<u8>,
}

impl View for Universe {
    type V = UniverseView;

    closed spec fn view(&self) -> UniverseView {
        UniverseView {
            width: self.width as nat,
            height: self.height as nat,
            cells: self.cells@,
        }
    }
}

impl Universe {
    /// A well-formed engine has positive dimensions and a grid of exactly
    /// `width * height` cells, each an intensity in `[0, 7]`. Every
    /// constructor establishes this and every advance preserves it.
    pub open spec fn wf(&self) -> bool {
        grid_wf(self@.cells, self@.width as int, self@.height as int)
    }

    /// Builds the engine of the instantaneous variant: the deterministic
    /// seed pattern starts selected cells fully alive (7) and the rest
    /// fully dead (0). Zero dimensions are rejected with
    /// `InvalidDimension`; the requested cell count must fit in a `usize`.
    pub fn new(width: u32, height: u32) -> (result: Result<Universe, InvalidDimension>)
        requires
            width * height <= usize::MAX,
        ensures
            match result {
                Ok(u) => {
                    &&& 1 <= width
                    &&& 1 <= height
                    &&& u.wf()
                    &&& u@.width == width as nat
                    &&& u@.height == height as nat
                    &&& u@.cells == seed_grid(width as int, height as int)
                },
                Err(_) => width == 0 || height == 0,
            },
    {
        if width == 0 || height == 0 {
            return Err(InvalidDimension);
        }
        let cells = Self::seed_cells(width, height, 7, 0);
        proof {
            assert(cells@ =~= seed_grid(width as int, height as int));
        }
        Ok(Universe { width, height, cells })
    }

    /// Builds the engine of the fading variant: the same seed selector, but
    /// every cell starts mid-transition, selected cells just born (1) and
    /// the rest just dying (6). Zero dimensions are rejected with
    /// `InvalidDimension`; the requested cell count must fit in a `usize`.
    pub fn new_fading(width: u32, height: u32) -> (result: Result<Universe, InvalidDimension>)
        requires
            width * height <= usize::MAX,
        ensures
            match result {
                Ok(u) => {
                    &&& 1 <= width
                    &&& 1 <= height
                    &&& u.wf()
                    &&& u@.width == width as nat
                    &&& u@.height == height as nat
                    &&& u@.cells == seed_grid_fading(width as int, height as int)
                },
                Err(_) => width == 0 || height == 0,
            },
    {
        if width == 0 || height == 0 {
            return Err(InvalidDimension);
        }
        let cells = Self::seed_cells(width, height, 1, 6);
        proof {
            assert(cells@ =~= seed_grid_fading(width as int, height as int));
        }
        Ok(Universe { width, height, cells })
    }

    /// Fills a fresh grid from the deterministic seed selector, one value
    /// for the live side of the pattern and one for the dead side.
    #[verifier::loop_isolation(false)]
    fn seed_cells(width: u32, height: u32, live: u8, dead: u8) -> (cells: Vec<u8>)
        requires
            1 <= width,
            1 <= height,
            width * height <= usize::MAX,
        ensures
            cells@.len() == width * height,
            forall|i: int|
                0 <= i < cells@.len() ==> cells@[i] == (if seed_live(i) {
                    live
                } else {
                    dead
                }),
    {
        let total: usize = (width as usize) * (height as usize);
        let mut cells: Vec<u8> = Vec::new();
        let mut i: usize = 0;
        while i < total
            invariant
                i <= total,
                cells@.len() == i,
                forall|j: int|
                    0 <= j < i ==> cells@[j] == (if seed_live(j) {
                        live
                    } else {
                        dead
                    }),
            decreases total - i,
        {
            let cell: u8 = if i % 2 == 0 || i % 7 == 0 {
                live
            } else {
                dead
            };
            cells.push(cell);
            i = i + 1;
        }
        cells
    }

    /// Contribution of one neighbor offset to the live-neighbor count of
    /// the cell at `(row, col)`.
    fn offset_live_at(&self, row: u32, col: u32, dr: u32, dc: u32) -> (r: u8)
        requires
            self.wf(),
            row < self@.height,
            col < self@.width,
        ensures
            r == offset_live(
                self@.cells,
                self@.width as int,
                self@.height as int,
                row as int,
                col as int,
                dr as int,
                dc as int,
            ),
    {
        if dr == 0 && dc == 0 {
            return 0;
        }
        let w64: u64 = self.width as u64;
        let h64: u64 = self.height as u64;
        let len: usize = self.cells.len();
        let nr: u64 = (row as u64 + dr as u64) % h64;
        let nc: u64 = (col as u64 + dc as u64) % w64;
        proof {
            vstd::arithmetic::div_mod::lemma_mod_division_less_than_divisor(
                row as int + dr as int,
                h64 as int,
            );
            vstd::arithmetic::div_mod::lemma_mod_division_less_than_divisor(
                col as int + dc as int,
                w64 as int,
            );
            lemma_row_major_bound(nr as int, nc as int, w64 as int, h64 as int);
            assert((nr as int) * (w64 as int) + (nc as int) < (len as int));
        }
        let idx: u64 = nr * w64 + nc;
        if self.cells[idx as usize] == 7 {
            1
        } else {
            0
        }
    }

    /// Counts the fully alive cells among the 8 toroidal neighbors of the
    /// cell at `(row, col)`; mid-transition neighbors never count. The
    /// result is always in `[0, 8]`.
    pub fn live_neighbor_count(&self, row: u32, col: u32) -> (n: u8)
        requires
            self.wf(),
            row < self@.height,
            col < self@.width,
        ensures
            n == live_count(
                self@.cells,
                self@.width as int,
                self@.height as int,
                row as int,
                col as int,
            ),
            n <= 8,
    {
        let up: u32 = self.height - 1;
        let left: u32 = self.width - 1;
        let mut n: u8 = 0;
        n = n + self.offset_live_at(row, col, up, left);
        n = n + self.offset_live_at(row, col, up, 0);
        n = n + self.offset_live_at(row, col, up, 1);
        n = n + self.offset_live_at(row, col, 0, left);
        n = n + self.offset_live_at(row, col, 0, 1);
        n = n + self.offset_live_at(row, col, 1, left);
        n = n + self.offset_live_at(row, col, 1, 0);
        n = n + self.offset_live_at(row, col, 1, 1);
        proof {
            assert(offset_live(
                self@.cells,
                self@.width as int,
                self@.height as int,
                row as int,
                col as int,
                0,
                0,
            ) == 0);
        }
        n
    }

    /// Advances the grid one generation under the neighborhood rule: the
    /// whole new grid is computed from the pre-call snapshot, so the order
    /// in which cells are visited cannot influence the result.
    #[verifier::loop_isolation(false)]
    pub fn tick(&mut self)
        requires
            old(self).wf(),
        ensures
            final(self).wf(),
            final(self)@.width == old(self)@.width,
            final(self)@.height == old(self)@.height,
            final(self)@.cells == tick_grid(
                old(self)@.cells,
                old(self)@.width as int,
                old(self)@.height as int,
            ),
    {
        let w: u32 = self.width;
        let h: u32 = self.height;
        let ghost g: Seq<u8> = self@.cells;
        let ghost wi: int = w as int;
        let ghost hi: int = h as int;
        let total: usize = self.cells.len();
        let mut next: Vec<u8> = Vec::new();
        let mut row: u32 = 0;
        while row < h
            invariant
                row <= h,
                next@.len() == row * wi,
                forall|i: int|
                    0 <= i < next@.len() ==> next@[i] == tick_cell(
                        g[i],
                        live_count(g, wi, hi, i / wi, i % wi),
                    ),
            decreases h - row,
        {
            let mut col: u32 = 0;
            while col < w
                invariant
                    row < h,
                    col <= w,
                    next@.len() == row * wi + col,
                    forall|i: int|
                        0 <= i < next@.len() ==> next@[i] == tick_cell(
                            g[i],
                            live_count(g, wi, hi, i / wi, i % wi),
                        ),
                decreases w - col,
            {
                let n: u8 = self.live_neighbor_count(row, col);
                proof {
                    lemma_row_major_bound(row as int, col as int, wi, hi);
                    assert(row as int * wi + col < (total as int));
                }
                let idx: usize = (row as usize) * (w as usize) + (col as usize);
                let cell: u8 = self.cells[idx];
                let next_cell: u8 = if cell == 7 {
                    if n == 2 || n == 3 {
                        7
                    } else {
                        6
                    }
                } else if cell == 0 {
                    if n == 3 {
                        7
                    } else {
                        0
                    }
                } else {
                    cell - 1
                };
                proof {
                    vstd::arithmetic::div_mod::lemma_fundamental_div_mod_converse(
                        row as int * wi + col as int,
                        wi,
                        row as int,
                        col as int,
                    );
                    assert(next_cell == tick_cell(
                        g[idx as int],
                        live_count(g, wi, hi, idx as int / wi, idx as int % wi),
                    ));
                }
                next.push(next_cell);
                col = col + 1;
            }
            proof {
                assert(row as int * wi + wi == (row + 1) * wi) by (nonlinear_arith);
            }
            row = row + 1;
        }
        proof {
            assert(hi * wi == wi * hi) by (nonlinear_arith);
            assert(next@ =~= tick_grid(g, wi, hi));
        }
        self.cells = next;
    }

    /// Applies the fade-completion step to every cell: just-born cells (1)
    /// snap fully alive (7), just-dying cells (6) snap fully dead (0), and
    /// every other intensity is left unchanged.
    #[verifier::loop_isolation(false)]
    pub fn tock(&mut self)
        requires
            old(self).wf(),
        ensures
            final(self).wf(),
            final(self)@.width == old(self)@.width,
            final(self)@.height == old(self)@.height,
            final(self)@.cells == tock_grid(old(self)@.cells),
    {
        let ghost g: Seq<u8> = self@.cells;
        let total: usize = self.cells.len();
        let mut next: Vec<u8> = Vec::new();
        let mut i: usize = 0;
        while i < total
            invariant
                i <= total,
                next@.len() == i,
                forall|j: int| 0 <= j < i ==> next@[j] == tock_cell(g[j]),
            decreases total - i,
        {
            let cell: u8 = self.cells[i];
            let next_cell: u8 = if cell == 1 {
                7
            } else if cell == 6 {
                0
            } else {
                cell
            };
            next.push(next_cell);
            i = i + 1;
        }
        proof {
            assert(next@ =~= tock_grid(g));
        }
        self.cells = next;
    }

    /// The grid width.
    pub fn width(&self) -> (w: u32)
        ensures
            w == self@.width,
    {
        self.width
    }

    /// The grid height.
    pub fn height(&self) -> (h: u32)
        ensures
            h == self@.height,
    {
        self.height
    }

    /// Renders the grid as text, one line per row: `#` for a fully alive
    /// cell, `.` for any other intensity, each row closed by a newline.
    #[verifier::loop_isolation(false)]
    pub fn render(&self) -> (text: String)
        requires
            self.wf(),
        ensures
            text@.len() == self@.height * (self@.width + 1),
            forall|r: int, c: int|
                0 <= r < self@.height && 0 <= c < self@.width ==> text@[grid_index(
                    r,
                    c,
                    self@.width as int + 1,
                )] == glyph(self@.cells[#[trigger] grid_index(r, c, self@.width as int)]),
            forall|r: int|
                0 <= r < self@.height ==> text@[#[trigger] grid_index(
                    r,
                    self@.width as int,
                    self@.width as int + 1,
                )] == '\n',
    {
        let w: u32 = self.width;
        let h: u32 = self.height;
        let ghost wi: int = w as int;
        let ghost hi: int = h as int;
        let total: usize = self.cells.len();
        let mut text: String = String::new();
        let mut row: u32 = 0;
        while row < h
            invariant
                row <= h,
                text@.len() == row * (wi + 1),
                forall|r: int, c: int|
                    0 <= r < row && 0 <= c < wi ==> text@[grid_index(r, c, wi + 1)] == glyph(
                        self@.cells[#[trigger] grid_index(r, c, wi)],
                    ),
                forall|r: int| 0 <= r < row ==> text@[#[trigger] grid_index(r, wi, wi + 1)] == '\n',
            decreases h - row,
        {
            let mut col: u32 = 0;
            while col < w
                invariant
                    row < h,
                    col <= w,
                    text@.len() == row * (wi + 1) + col,
                    forall|r: int, c: int|
                        0 <= r < row && 0 <= c < wi ==> text@[grid_index(r, c, wi + 1)] == glyph(
                            self@.cells[#[trigger] grid_index(r, c, wi)],
                        ),
                    forall|r: int|
                        0 <= r < row ==> text@[#[trigger] grid_index(r, wi, wi + 1)] == '\n',
                    forall|c: int|
                        0 <= c < col ==> text@[#[trigger] grid_index(row as int, c, wi + 1)]
                            == glyph(self@.cells[grid_index(row as int, c, wi)]),
                decreases w - col,
            {
                proof {
                    lemma_row_major_bound(row as int, col as int, wi, hi);
                    assert((row as int) * wi + (col as int) < (total as int));
                }
                let idx: usize = (row as usize) * (w as usize) + (col as usize);
                let cell: u8 = self.cells[idx];
                let ghost before: Seq<char> = text@;
                if cell == 7 {
                    text.append("#");
                } else {
                    text.append(".");
                }
                proof {
                    reveal_strlit("#");
                    reveal_strlit(".");
                    assert(text@[grid_index(row as int, col as int, wi + 1)] == glyph(
                        self@.cells[grid_index(row as int, col as int, wi)],
                    ));
                    assert forall|r: int, c: int| 0 <= r < row && 0 <= c < wi implies text@[
                        grid_index(r, c, wi + 1)] == glyph(
                        self@.cells[#[trigger] grid_index(r, c, wi)],
                    ) by {
                        lemma_row_major_bound(r, c, wi + 1, row as int);
                        assert(text@[grid_index(r, c, wi + 1)] == before[grid_index(r, c, wi + 1)]);
                    };
                    assert forall|r: int| 0 <= r < row implies text@[#[trigger] grid_index(
                        r,
                        wi,
                        wi + 1,
                    )] == '\n' by {
                        lemma_row_major_bound(r, wi, wi + 1, row as int);
                        assert(text@[grid_index(r, wi, wi + 1)] == before[grid_index(
                            r,
                            wi,
                            wi + 1,
                        )]);
                    };
                }
                col = col + 1;
            }
            let ghost line_done: Seq<char> = text@;
            text.append("\n");
            proof {
                reveal_strlit("\n");
                assert((row as int) * (wi + 1) + wi + 1 == (row as int + 1) * (wi + 1))
                    by (nonlinear_arith);
                assert(text@[grid_index(row as int, wi, wi + 1)] == '\n');
                assert forall|r: int, c: int| 0 <= r < row as int + 1 && 0 <= c < wi implies text@[
                    grid_index(r, c, wi + 1)] == glyph(
                    self@.cells[#[trigger] grid_index(r, c, wi)],
                ) by {
                    if r < row as int {
                        lemma_row_major_bound(r, c, wi + 1, row as int);
                    }
                    assert(grid_index(r, c, wi + 1) < line_done.len());
                    assert(text@[grid_index(r, c, wi + 1)] == line_done[grid_index(r, c, wi + 1)]);
                };
                assert forall|r: int| 0 <= r < row as int + 1 implies text@[#[trigger] grid_index(
                    r,
                    wi,
                    wi + 1,
                )] == '\n' by {
                    if r < row as int {
                        lemma_row_major_bound(r, wi, wi + 1, row as int);
                        assert(text@[grid_index(r, wi, wi + 1)] == line_done[grid_index(
                            r,
                            wi,
                            wi + 1,
                        )]);
                    }
                };
            }
            row = row + 1;
        }
        text
    }

    /// A read-only view of the current generation, row-major, of length
    /// exactly `width * height`.
    pub fn cells(&self) -> (cells: &Vec<u8>)
        requires
            self.wf(),
        ensures
            cells@ == self@.cells,
            cells@.len() == self@.width * self@.height,
    {
        &self.cells
    }
}

} // verus!
