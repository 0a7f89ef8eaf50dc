//! The simulation core: the grid data model, toroidal neighbor counting,
//! the generation step, and the cell-mutation operations.

use vstd::prelude::*;
use vstd::string::StringExecFns;

verus! {

/// The state of one grid position: a plain two-valued type, copied by value.
#[derive(Clone, Copy, Debug, PartialEq, Eq, Structural)]
pub enum Cell {
    Dead,
    Alive,
}

impl Cell {
    /// The opposite state.
    pub open spec fn flipped(self) -> Cell {
        if self is Alive {
            Cell::Dead
        } else {
            Cell::Alive
        }
    }
}

/// Row-major position of `(row, col)` in a grid `width` cells wide.
pub open spec fn pos_of(row: int, col: int, width: int) -> int {
    row * width + col
}

/// 1 if the cell at `(row, col)` is alive, else 0.
pub open spec fn live_at(cells: Seq<Cell>, width: int, row: int, col: int) -> int {
    if cells[pos_of(row, col, width)] is Alive {
        1
    } else {
        0
    }
}

/// Toroidal live-neighbor count: the sum over the eight row/column offsets
/// in {-1, 0, +1} x {-1, 0, +1} without (0, 0), each taken modulo the grid
/// dimensions. When a dimension is 1 or 2 some offsets coincide and the
/// same cell is counted from several directions; that duplication is the
/// intended consequence of the modular formula.
pub open spec fn neighbor_count_of(
    cells: Seq<Cell>,
    width: int,
    height: int,
    row: int,
    col: int,
) -> int {
    let rm = (row + height - 1) % height;
    let rp = (row + 1) % height;
    let cm = (col + width - 1) % width;
    let cp = (col + 1) % width;
    live_at(cells, width, rm, cm) + live_at(cells, width, rm, col) + live_at(cells, width, rm, cp)
        + live_at(cells, width, row, cm) + live_at(cells, width, row, cp)
        + live_at(cells, width, rp, cm) + live_at(cells, width, rp, col)
        + live_at(cells, width, rp, cp)
}

/// The B3/S23 transition rule: a live cell survives with two or three live
/// neighbors and dies otherwise; a dead cell becomes alive with exactly
/// three live neighbors.
pub open spec fn next_cell(cur: Cell, live_neighbors: int) -> Cell {
    if cur is Alive {
        if live_neighbors < 2 {
            Cell::Dead
        } else if live_neighbors <= 3 {
            Cell::Alive
        } else {
            Cell::Dead
        }
    } else {
        if live_neighbors == 3 {
            Cell::Alive
        } else {
            Cell::Dead
        }
    }
}

/// One whole generation, every cell computed from the same snapshot.
pub open spec fn stepped(cells: Seq<Cell>, width: int, height: int) -> Seq<Cell> {
    Seq::new(
        cells.len(),
        |i: int| next_cell(cells[i], neighbor_count_of(cells, width, height, i / width, i % width)),
    )
}

/// The cell sequence with the cell at position `i` flipped.
pub open spec fn toggled_at(s: Seq<Cell>, i: int) -> Seq<Cell> {
    s.update(i, s[i].flipped())
}

/// The glyph used by the textual dump: a filled square for a live cell,
/// a hollow square for a dead one.
pub open spec fn glyph(c: Cell) -> char {
    if c is Alive {
        '◼'
    } else {
        '◻'
    }
}

/// The first `col` glyphs of row `row` of the textual dump.
pub open spec fn row_prefix(cells: Seq<Cell>, width: int, row: int, col: int) -> Seq<char> {
    Seq::new(col as nat, |c: int| glyph(cells[pos_of(row, c, width)]))
}

/// The first `row` lines of the textual dump: each line is one grid row,
/// one glyph per cell, terminated by a newline.
pub open spec fn rows_up_to(cells: Seq<Cell>, width: int, row: int) -> Seq<char>
    decreases row,
{
    if row <= 0 {
        Seq::empty()
    } else {
        rows_up_to(cells, width, row - 1) + row_prefix(cells, width, row - 1, width).push('\n')
    }
}

/// The whole textual dump of a grid.
pub open spec fn rendered(cells: Seq<Cell>, width: int, height: int) -> Seq<char> {
    rows_up_to(cells, width, height)
}

/// A row-major position taken inside a grid stays inside its cell sequence.
pub(crate) proof fn lemma_pos_in_range(row: int, col: int, width: int, height: int)
    requires
        0 <= row < height,
        0 <= col < width,
    ensures
        0 <= pos_of(row, col, width) < width * height,
{
    assert(0 <= row * width + col < width * height) by (nonlinear_arith)
        requires
            0 <= row < height,
            0 <= col < width,
    ;
}

/// The modular wraparound of one step up or down agrees with its branch form.
proof fn lemma_wrap(i: int, n: int)
    requires
        0 <= i < n,
    ensures
        (i + n - 1) % n == (if i == 0 { n - 1 } else { i - 1 }),
        (i + 1) % n == (if i + 1 == n { 0 } else { i + 1 }),
{
    if i == 0 {
        vstd::arithmetic::div_mod::lemma_small_mod((n - 1) as nat, n as nat);
    } else {
        vstd::arithmetic::div_mod::lemma_fundamental_div_mod_converse(i + n - 1, n, 1, i - 1);
    }
    if i + 1 == n {
        vstd::arithmetic::div_mod::lemma_fundamental_div_mod_converse(i + 1, n, 1, 0);
    } else {
        vstd::arithmetic::div_mod::lemma_small_mod((i + 1) as nat, n as nat);
    }
}

/// Cells mapped one for one from host-supplied booleans: `true` is alive.
fn cells_of_bits(bits: &Vec<bool>) -> (cells: Vec<Cell>)
    ensures
        cells@.len() == bits@.len(),
        forall|i: int|
            0 <= i < bits@.len() ==> cells@[i] == (if bits@[i] {
                Cell::Alive
            } else {
                Cell::Dead
            }),
{
    let mut cells: Vec<Cell> = Vec::new();
    let mut i: usize = 0;
    while i < bits.len()
        invariant
            i <= bits@.len(),
            cells@.len() == i as int,
            forall|j: int|
                0 <= j < i as int ==> cells@[j] == (if bits@[j] {
                    Cell::Alive
                } else {
                    Cell::Dead
                }),
        decreases bits@.len() - i,
    {
        if bits[i] {
            cells.push(Cell::Alive);
        } else {
            cells.push(Cell::Dead);
        }
        i = i + 1;
    }
    cells
}

/// A sequence of `n` dead cells.
fn dead_cells(n: usize) -> (cells: Vec<Cell>)
    ensures
        cells@.len() == n as int,
        forall|i: int| 0 <= i < n as int ==> cells@[i] == Cell::Dead,
{
    let mut cells: Vec<Cell> = Vec::new();
    let mut i: usize = 0;
    while i < n
        invariant
            i <= n,
            cells@.len() == i as int,
            forall|j: int| 0 <= j < i as int ==> cells@[j] == Cell::Dead,
        decreases n - i,
    {
        cells.push(Cell::Dead);
        i = i + 1;
    }
    cells
}

/// The full cell-state model of one generation: dimensions and a flat,
/// row-major cell sequence of length exactly `width * height`.
pub struct Universe {
    pub width: u32,
    pub height: u32,
    pub cells: Vec<Cell>,
}

impl Universe {
    /// The dimension invariant: the cell sequence has exactly
    /// `width * height` entries, and that product fits the machine
    /// arithmetic the indexing uses. Every constructor establishes it and
    /// every operation preserves it.
    pub open spec fn well_formed(self) -> bool {
        &&& self.cells@.len() == self.width as int * self.height as int
        &&& self.width as int * self.height as int <= u32::MAX as int
    }

    /// The position `(row, col)` names a cell of this grid.
    pub open spec fn in_bounds(self, row: int, col: int) -> bool {
        0 <= row < self.height as int && 0 <= col < self.width as int
    }

    /// The cell at `(row, col)`.
    pub open spec fn cell_at(self, row: int, col: int) -> Cell {
        self.cells@[pos_of(row, col, self.width as int)]
    }

    /// The toroidal live-neighbor count of `(row, col)`.
    pub open spec fn neighbor_count_spec(self, row: int, col: int) -> int {
        neighbor_count_of(self.cells@, self.width as int, self.height as int, row, col)
    }

    /// The next generation of this grid.
    pub open spec fn step_spec(self) -> Seq<Cell> {
        stepped(self.cells@, self.width as int, self.height as int)
    }

    /// Builds a grid of the given dimensions. The host supplies one boolean
    /// per cell, row-major (`true` for alive); drawing a fair coin for each
    /// gives a uniform random initialization, while tests pass fixed
    /// patterns.
    pub fn new(width: u32, height: u32, alive: &Vec<bool>) -> (u: Universe)
        requires
            width as int * height as int <= u32::MAX as int,
            alive@.len() == width as int * height as int,
        ensures
            u.well_formed(),
            u.width == width,
            u.height == height,
            forall|i: int|
                0 <= i < alive@.len() ==> u.cells@[i] == (if alive@[i] {
                    Cell::Alive
                } else {
                    Cell::Dead
                }),
    {
        let cells = cells_of_bits(alive);
        Universe { width, height, cells }
    }

    /// Replaces every cell from fresh host-supplied booleans, one per cell,
    /// row-major; the dimensions stay as they are.
    pub fn random_mutate(&mut self, alive: &Vec<bool>)
        requires
            old(self).well_formed(),
            alive@.len() == old(self).width as int * old(self).height as int,
        ensures
            final(self).well_formed(),
            final(self).width == old(self).width,
            final(self).height == old(self).height,
            forall|i: int|
                0 <= i < alive@.len() ==> final(self).cells@[i] == (if alive@[i] {
                    Cell::Alive
                } else {
                    Cell::Dead
                }),
    {
        self.cells = cells_of_bits(alive);
    }

    /// Grid width in cells.
    pub fn width(&self) -> (w: u32)
        ensures
            w == self.width,
    {
        self.width
    }

    /// Grid height in cells.
    pub fn height(&self) -> (h: u32)
        ensures
            h == self.height,
    {
        self.height
    }

    /// Read-only view of the backing cell sequence, row-major.
    pub fn cells(&self) -> (r: &Vec<Cell>)
        ensures
            r@ == self.cells@,
    {
        &self.cells
    }

    /// The dead and alive values of the entire grid, as a slice.
    pub fn get_cells(&self) -> (r: &[Cell])
        ensures
            r@ == self.cells@,
    {
        self.cells.as_slice()
    }

    /// Row-major index of `(row, column)`.
    pub fn get_index(&self, row: u32, column: u32) -> (idx: usize)
        requires
            self.well_formed(),
            self.in_bounds(row as int, column as int),
        ensures
            idx as int == pos_of(row as int, column as int, self.width as int),
            idx < self.cells@.len(),
    {
        proof {
            lemma_pos_in_range(row as int, column as int, self.width as int, self.height as int);
        }
        (row * self.width + column) as usize
    }

    /// 1 if the cell at `(row, col)` is alive, else 0.
    fn live_cell(&self, row: u32, col: u32) -> (b: u8)
        requires
            self.well_formed(),
            self.in_bounds(row as int, col as int),
        ensures
            b as int == live_at(self.cells@, self.width as int, row as int, col as int),
            b <= 1,
    {
        let idx = self.get_index(row, col);
        if self.cells[idx] == Cell::Alive {
            1
        } else {
            0
        }
    }

    /// Counts the live cells among the eight toroidal neighbors of
    /// `(row, column)`: offset -1 on row 0 wraps to the last row, offset +1
    /// on the last row wraps to row 0, and likewise for columns.
    pub fn live_neighbor_count(&self, row: u32, column: u32) -> (count: u8)
        requires
            self.well_formed(),
            self.in_bounds(row as int, column as int),
        ensures
            count as int == self.neighbor_count_spec(row as int, column as int),
            count <= 8,
    {
        let h = self.height;
        let w = self.width;
        let rm = if row == 0 {
            h - 1
        } else {
            row - 1
        };
        let rp = if row + 1 == h {
            0
        } else {
            row + 1
        };
        let cm = if column == 0 {
            w - 1
        } else {
            column - 1
        };
        let cp = if column + 1 == w {
            0
        } else {
            column + 1
        };
        proof {
            lemma_wrap(row as int, h as int);
            lemma_wrap(column as int, w as int);
        }
        let mut count: u8 = 0;
        count = count + self.live_cell(rm, cm);
        count = count + self.live_cell(rm, column);
        count = count + self.live_cell(rm, cp);
        count = count + self.live_cell(row, cm);
        count = count + self.live_cell(row, cp);
        count = count + self.live_cell(rp, cm);
        count = count + self.live_cell(rp, column);
        count = count + self.live_cell(rp, cp);
        count
    }

    /// Advances the whole grid by one generation. Every next state is
    /// computed from the pre-step snapshot, and the cell sequence is
    /// replaced in one assignment afterwards, so the generation advances
    /// atomically and the order of cell visits cannot matter.
    pub fn tick(&mut self)
        requires
            old(self).well_formed(),
        ensures
            final(self).well_formed(),
            final(self).width == old(self).width,
            final(self).height == old(self).height,
            final(self).cells@ == old(self).step_spec(),
    {
        let w = self.width;
        let h = self.height;
        let mut next: Vec<Cell> = Vec::new();
        let mut row: u32 = 0;
        while row < h
            invariant
                *self == *old(self),
                self.well_formed(),
                w == self.width,
                h == self.height,
                row <= h,
                next@.len() == row as int * w as int,
                forall|k: int| 0 <= k < next@.len() ==> next@[k] == self.step_spec()[k],
            decreases h - row,
        {
            let mut col: u32 = 0;
            while col < w
                invariant
                    *self == *old(self),
                    self.well_formed(),
                    w == self.width,
                    h == self.height,
                    row < h,
                    col <= w,
                    next@.len() == row as int * w as int + col as int,
                    forall|k: int| 0 <= k < next@.len() ==> next@[k] == self.step_spec()[k],
                decreases w - col,
            {
                let idx = self.get_index(row, col);
                let cur = self.cells[idx];
                let n = self.live_neighbor_count(row, col);
                let next_state = if cur == Cell::Alive {
                    if n < 2 {
                        Cell::Dead
                    } else if n <= 3 {
                        Cell::Alive
                    } else {
                        Cell::Dead
                    }
                } else {
                    if n == 3 {
                        Cell::Alive
                    } else {
                        Cell::Dead
                    }
                };
                proof {
                    lemma_pos_in_range(row as int, col as int, w as int, h as int);
                    vstd::arithmetic::div_mod::lemma_fundamental_div_mod_converse(
                        idx as int,
                        w as int,
                        row as int,
                        col as int,
                    );
                    assert(next_state == self.step_spec()[idx as int]);
                }
                next.push(next_state);
                col = col + 1;
            }
            proof {
                assert((row as int + 1) * w as int == row as int * w as int + w as int)
                    by (nonlinear_arith);
            }
            row = row + 1;
        }
        proof {
            assert(h as int * w as int == w as int * h as int) by (nonlinear_arith);
            assert(next@ =~= old(self).step_spec());
        }
        self.cells = next;
    }

    /// Flips the cell at `(row, column)` between dead and alive.
    pub fn toggle_cell(&mut self, row: u32, column: u32)
        requires
            old(self).well_formed(),
            old(self).in_bounds(row as int, column as int),
        ensures
            final(self).well_formed(),
            final(self).width == old(self).width,
            final(self).height == old(self).height,
            final(self).cells@ == toggled_at(
                old(self).cells@,
                pos_of(row as int, column as int, old(self).width as int),
            ),
    {
        let idx = self.get_index(row, column);
        let flipped = if self.cells[idx] == Cell::Alive {
            Cell::Dead
        } else {
            Cell::Alive
        };
        self.cells[idx] = flipped;
    }

    /// Forces the cell at `(row, column)` to alive; a second call changes
    /// nothing further.
    pub fn set_alive_cell(&mut self, row: u32, column: u32)
        requires
            old(self).well_formed(),
            old(self).in_bounds(row as int, column as int),
        ensures
            final(self).well_formed(),
            final(self).width == old(self).width,
            final(self).height == old(self).height,
            final(self).cells@ == old(self).cells@.update(
                pos_of(row as int, column as int, old(self).width as int),
                Cell::Alive,
            ),
    {
        let idx = self.get_index(row, column);
        self.cells[idx] = Cell::Alive;
    }

    /// Sets every listed `(row, column)` position to alive; duplicates are
    /// harmless and every other position keeps its state.
    pub fn set_cells(&mut self, list: &Vec<(u32, u32)>)
        requires
            old(self).well_formed(),
            forall|j: int|
                0 <= j < list@.len() ==> old(self).in_bounds(
                    list@[j].0 as int,
                    list@[j].1 as int,
                ),
        ensures
            final(self).well_formed(),
            final(self).width == old(self).width,
            final(self).height == old(self).height,
            final(self).cells@.len() == old(self).cells@.len(),
            forall|k: int|
                0 <= k < old(self).cells@.len() ==> final(self).cells@[k] == (
                if (exists|j: int|
                    0 <= j < list@.len() && pos_of(
                        list@[j].0 as int,
                        list@[j].1 as int,
                        old(self).width as int,
                    ) == k) {
                    Cell::Alive
                } else {
                    old(self).cells@[k]
                }),
    {
        let mut i: usize = 0;
        while i < list.len()
            invariant
                self.well_formed(),
                self.width == old(self).width,
                self.height == old(self).height,
                self.cells@.len() == old(self).cells@.len(),
                i <= list@.len(),
                forall|j: int|
                    0 <= j < list@.len() ==> old(self).in_bounds(
                        list@[j].0 as int,
                        list@[j].1 as int,
                    ),
                forall|k: int|
                    0 <= k < old(self).cells@.len() ==> self.cells@[k] == (
                    if (exists|j: int|
                        0 <= j < i as int && pos_of(list@[j].0 as int, list@[j].1 as int, old(self).width as int)
                            == k) {
                        Cell::Alive
                    } else {
                        old(self).cells@[k]
                    }),
            decreases list@.len() - i,
        {
            let pair = list[i];
            let idx = self.get_index(pair.0, pair.1);
            self.cells[idx] = Cell::Alive;
            proof {
                let prev = i as int;
                assert(list@[prev] == pair);
                assert(pos_of(list@[prev].0 as int, list@[prev].1 as int, old(self).width as int) == idx as int);
                assert forall|k: int| 0 <= k < old(self).cells@.len() implies self.cells@[k] == (
                if (exists|j: int|
                    0 <= j < prev + 1 && pos_of(list@[j].0 as int, list@[j].1 as int, old(self).width as int) == k) {
                    Cell::Alive
                } else {
                    old(self).cells@[k]
                }) by {
                    if k == idx as int {
                        assert(0 <= prev < prev + 1 && pos_of(
                            list@[prev].0 as int,
                            list@[prev].1 as int,
                            old(self).width as int,
                        ) == k);
                    } else {
                        if exists|j: int|
                            0 <= j < prev + 1 && pos_of(list@[j].0 as int, list@[j].1 as int, old(self).width as int)
                                == k {
                            let j = choose|j: int|
                                0 <= j < prev + 1 && pos_of(
                                    list@[j].0 as int,
                                    list@[j].1 as int,
                                    old(self).width as int,
                                ) == k;
                            assert(j < prev);
                            assert(exists|j2: int|
                                0 <= j2 < prev && pos_of(
                                    list@[j2].0 as int,
                                    list@[j2].1 as int,
                                    old(self).width as int,
                                ) == k);
                        }
                    }
                }
            }
            i = i + 1;
        }
    }

    /// Sets the grid width and resets every cell in the grid, old and new
    /// alike, to dead.
    pub fn set_width(&mut self, width: u32)
        requires
            width as int * old(self).height as int <= u32::MAX as int,
        ensures
            final(self).well_formed(),
            final(self).width == width,
            final(self).height == old(self).height,
            final(self).cells@.len() == width as int * old(self).height as int,
            forall|k: int| 0 <= k < final(self).cells@.len() ==> final(self).cells@[k] == Cell::Dead,
    {
        let n = width * self.height;
        self.width = width;
        self.cells = dead_cells(n as usize);
    }

    /// Sets the grid height and resets every cell in the grid, old and new
    /// alike, to dead.
    pub fn set_height(&mut self, height: u32)
        requires
            old(self).width as int * height as int <= u32::MAX as int,
        ensures
            final(self).well_formed(),
            final(self).width == old(self).width,
            final(self).height == height,
            final(self).cells@.len() == old(self).width as int * height as int,
            forall|k: int| 0 <= k < final(self).cells@.len() ==> final(self).cells@[k] == Cell::Dead,
    {
        let n = self.width * height;
        self.height = height;
        self.cells = dead_cells(n as usize);
    }

    /// Textual dump of the grid: one line per row, one glyph per cell, a
    /// hollow square for a dead cell and a filled square for a live one,
    /// each row terminated by a newline.
    pub fn render(&self) -> (text: String)
        requires
            self.well_formed(),
            self.width >= 1,
        ensures
            text@ == rendered(self.cells@, self.width as int, self.height as int),
    {
        let mut text = String::new();
        let mut row: u32 = 0;
        while row < self.height
            invariant
                self.well_formed(),
                self.width >= 1,
                row <= self.height,
                text@ == rows_up_to(self.cells@, self.width as int, row as int),
            decreases self.height - row,
        {
            let mut col: u32 = 0;
            while col < self.width
                invariant
                    self.well_formed(),
                    self.width >= 1,
                    row < self.height,
                    col <= self.width,
                    text@ == rows_up_to(self.cells@, self.width as int, row as int) + row_prefix(
                        self.cells@,
                        self.width as int,
                        row as int,
                        col as int,
                    ),
                decreases self.width - col,
            {
                let idx = self.get_index(row, col);
                if self.cells[idx] == Cell::Alive {
                    text.append("◼");
                } else {
                    text.append("◻");
                }
                proof {
                    reveal_strlit("◼");
                    reveal_strlit("◻");
                    assert(row_prefix(self.cells@, self.width as int, row as int, col as int + 1)
                        =~= row_prefix(
                        self.cells@,
                        self.width as int,
                        row as int,
                        col as int,
                    ).push(glyph(self.cell_at(row as int, col as int))));
                    assert(text@ =~= rows_up_to(self.cells@, self.width as int, row as int)
                        + row_prefix(
                        self.cells@,
                        self.width as int,
                        row as int,
                        col as int + 1,
                    ));
                }
                col = col + 1;
            }
            text.append("\n");
            proof {
                reveal_strlit("\n");
                assert(text@ =~= rows_up_to(self.cells@, self.width as int, row as int + 1));
            }
            row = row + 1;
        }
        text
    }
}

} // verus!
