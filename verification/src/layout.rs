//! Pixel geometry for a renderer: the surface dimensions, the grid lines,
//! and the rectangles of the cells in a given state. A host draws these
//! onto its 2D surface; nothing here mutates the grid.

use vstd::prelude::*;
use crate::universe::{Cell, Universe};

verus! {

/// Edge length of one drawn cell, in pixels; cells are separated by
/// one-pixel grid lines.
pub const CELL_SIZE: u32 = 15;

impl Universe {
    /// The pixel dimensions of the drawing surface fit the machine
    /// arithmetic the geometry uses.
    pub open spec fn surface_fits(self) -> bool {
        &&& (CELL_SIZE as int + 1) * self.width as int + 1 <= u32::MAX as int
        &&& (CELL_SIZE as int + 1) * self.height as int + 1 <= u32::MAX as int
    }

    /// Pixel coordinate of the left or top edge of grid line `i`.
    pub open spec fn line_offset(i: int) -> int {
        i * (CELL_SIZE as int + 1) + 1
    }

    /// The top-left pixel corner of the cell at row-major position `k`.
    pub open spec fn rect_of(self, k: int) -> (u32, u32) {
        (
            (Self::line_offset(k % self.width as int)) as u32,
            (Self::line_offset(k / self.width as int)) as u32,
        )
    }

    /// The corners of the cells among the first `n` (row-major) whose state
    /// is `target`, in visiting order.
    pub open spec fn rects_prefix(self, target: Cell, n: int) -> Seq<(u32, u32)>
        decreases n,
    {
        if n <= 0 {
            Seq::empty()
        } else {
            let rest = self.rects_prefix(target, n - 1);
            if self.cells@[n - 1] == target {
                rest.push(self.rect_of(n - 1))
            } else {
                rest
            }
        }
    }

    /// The corners of all cells whose state is `target`, in row-major order.
    pub open spec fn rects_spec(self, target: Cell) -> Seq<(u32, u32)> {
        self.rects_prefix(target, self.cells@.len() as int)
    }

    /// Width of the drawing surface in pixels: one grid line, then one cell
    /// and one grid line per column.
    pub fn surface_width(&self) -> (w: u32)
        requires
            self.surface_fits(),
        ensures
            w as int == (CELL_SIZE as int + 1) * self.width as int + 1,
    {
        (CELL_SIZE + 1) * self.width + 1
    }

    /// Height of the drawing surface in pixels: one grid line, then one
    /// cell and one grid line per row.
    pub fn surface_height(&self) -> (h: u32)
        requires
            self.surface_fits(),
        ensures
            h as int == (CELL_SIZE as int + 1) * self.height as int + 1,
    {
        (CELL_SIZE + 1) * self.height + 1
    }

    /// The grid lines as segments `(x0, y0, x1, y1)`: one vertical line per
    /// column followed by one horizontal line per row, each spanning the
    /// whole surface.
    pub fn grid_lines(&self) -> (lines: Vec<(u32, u32, u32, u32)>)
        requires
            self.surface_fits(),
        ensures
            lines@.len() == self.width as int + self.height as int,
            forall|i: int|
                0 <= i < self.width as int ==> #[trigger] lines@[i] == (
                    (Self::line_offset(i)) as u32,
                    0u32,
                    (Self::line_offset(i)) as u32,
                    ((CELL_SIZE as int + 1) * self.height as int + 1) as u32,
                ),
            forall|j: int|
                0 <= j < self.height as int ==> #[trigger] lines@[self.width as int + j] == (
                    0u32,
                    (Self::line_offset(j)) as u32,
                    ((CELL_SIZE as int + 1) * self.width as int + 1) as u32,
                    (Self::line_offset(j)) as u32,
                ),
    {
        let mut lines: Vec<(u32, u32, u32, u32)> = Vec::new();
        let bottom = self.surface_height();
        let right = self.surface_width();
        let mut i: u32 = 0;
        while i < self.width
            invariant
                self.surface_fits(),
                i <= self.width,
                bottom as int == (CELL_SIZE as int + 1) * self.height as int + 1,
                right as int == (CELL_SIZE as int + 1) * self.width as int + 1,
                lines@.len() == i as int,
                forall|k: int|
                    0 <= k < i as int ==> #[trigger] lines@[k] == (
                        (Self::line_offset(k)) as u32,
                        0u32,
                        (Self::line_offset(k)) as u32,
                        ((CELL_SIZE as int + 1) * self.height as int + 1) as u32,
                    ),
            decreases self.width - i,
        {
            proof {
                assert(i as int * (CELL_SIZE as int + 1) + 1 <= (CELL_SIZE as int + 1)
                    * self.width as int + 1) by (nonlinear_arith)
                    requires
                        0 <= i as int,
                        (i as int) < (self.width as int),
                ;
            }
            let x = i * (CELL_SIZE + 1) + 1;
            lines.push((x, 0, x, bottom));
            i = i + 1;
        }
        let mut j: u32 = 0;
        while j < self.height
            invariant
                self.surface_fits(),
                j <= self.height,
                bottom as int == (CELL_SIZE as int + 1) * self.height as int + 1,
                right as int == (CELL_SIZE as int + 1) * self.width as int + 1,
                lines@.len() == self.width as int + j as int,
                forall|k: int|
                    0 <= k < self.width as int ==> #[trigger] lines@[k] == (
                        (Self::line_offset(k)) as u32,
                        0u32,
                        (Self::line_offset(k)) as u32,
                        ((CELL_SIZE as int + 1) * self.height as int + 1) as u32,
                    ),
                forall|k: int|
                    0 <= k < j as int ==> #[trigger] lines@[self.width as int + k] == (
                        0u32,
                        (Self::line_offset(k)) as u32,
                        ((CELL_SIZE as int + 1) * self.width as int + 1) as u32,
                        (Self::line_offset(k)) as u32,
                    ),
            decreases self.height - j,
        {
            proof {
                assert(j as int * (CELL_SIZE as int + 1) + 1 <= (CELL_SIZE as int + 1)
                    * self.height as int + 1) by (nonlinear_arith)
                    requires
                        0 <= j as int,
                        (j as int) < (self.height as int),
                ;
            }
            let y = j * (CELL_SIZE + 1) + 1;
            lines.push((0, y, right, y));
            j = j + 1;
        }
        lines
    }

    /// The top-left pixel corners of every cell whose state is `target`,
    /// visited row-major; each rectangle is `CELL_SIZE` pixels square.
    /// Collecting one state at a time lets a renderer fill all cells of a
    /// color in a single pass.
    pub fn cell_rects(&self, target: Cell) -> (rects: Vec<(u32, u32)>)
        requires
            self.well_formed(),
            self.surface_fits(),
        ensures
            rects@ == self.rects_spec(target),
    {
        let w = self.width;
        let h = self.height;
        let mut rects: Vec<(u32, u32)> = Vec::new();
        let mut row: u32 = 0;
        while row < h
            invariant
                self.well_formed(),
                self.surface_fits(),
                w == self.width,
                h == self.height,
                row <= h,
                rects@ == self.rects_prefix(target, row as int * w as int),
            decreases h - row,
        {
            let mut col: u32 = 0;
            while col < w
                invariant
                    self.well_formed(),
                    self.surface_fits(),
                    w == self.width,
                    h == self.height,
                    row < h,
                    col <= w,
                    rects@ == self.rects_prefix(target, row as int * w as int + col as int),
                decreases w - col,
            {
                let idx = self.get_index(row, col);
                proof {
                    vstd::arithmetic::div_mod::lemma_fundamental_div_mod_converse(
                        idx as int,
                        w as int,
                        row as int,
                        col as int,
                    );
                }
                if self.cells[idx] == target {
                    let x = col * (CELL_SIZE + 1) + 1;
                    let y = row * (CELL_SIZE + 1) + 1;
                    rects.push((x, y));
                }
                col = col + 1;
            }
            proof {
                assert((row as int + 1) * w as int == row as int * w as int + w as int)
                    by (nonlinear_arith);
            }
            row = row + 1;
        }
        proof {
            assert(h as int * w as int == w as int * h as int) by (nonlinear_arith);
        }
        rects
    }
}

} // verus!
