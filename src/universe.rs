use vstd::arithmetic::div_mod::lemma_fundamental_div_mod_converse;
use vstd::prelude::*;

verus! {

/// The state of one cell of the grid.
#[derive(Clone, Copy, Debug, PartialEq, Eq, Structural)]
pub enum Cell {
    Dead,
    Alive,
}

impl Cell {
    /// The cell's contribution to a neighbour count: 0 when dead, 1 when alive.
    pub open spec fn value(self) -> nat {
        match self {
            Cell::Dead => 0,
            Cell::Alive => 1,
        }
    }

    /// The other state.
    pub open spec fn flipped(self) -> Cell {
        match self {
            Cell::Dead => Cell::Alive,
            Cell::Alive => Cell::Dead,
        }
    }

    /// The cell as its small unsigned discriminant.
    pub fn as_u8(self) -> (r: u8)
        ensures
            r as nat == self.value(),
            r <= 1,
    {
        match self {
            Cell::Dead => 0,
            Cell::Alive => 1,
        }
    }

    fn toggle(&mut self)
        ensures
            *final(self) == old(self).flipped(),
    {
        *self = match *self {
            Cell::Dead => Cell::Alive,
            Cell::Alive => Cell::Dead,
        };
    }
}

/// The next state of a cell in `state` with `n` live neighbours, by Conway's rule.
pub open spec fn next_state(state: Cell, n: nat) -> Cell {
    match state {
        Cell::Alive => if n < 2 {
            Cell::Dead
        } else if n == 2 || n == 3 {
            Cell::Alive
        } else {
            Cell::Dead
        },
        Cell::Dead => if n == 3 {
            Cell::Alive
        } else {
            Cell::Dead
        },
    }
}

/// The index before `i` on a ring of `n` positions.
pub open spec fn wrap_prev(i: int, n: int) -> int {
    if i == 0 {
        n - 1
    } else {
        i - 1
    }
}

/// The index after `i` on a ring of `n` positions.
pub open spec fn wrap_next(i: int, n: int) -> int {
    if i == n - 1 {
        0
    } else {
        i + 1
    }
}

/// The cell at `(row, col)` of a row-major buffer `width` cells wide.
pub open spec fn cell_at(cells: Seq<Cell>, width: int, row: int, col: int) -> Cell {
    cells[row * width + col]
}

/// The live cells among the eight toroidal neighbours of `(row, col)`.
pub open spec fn live_neighbors(cells: Seq<Cell>, width: int, height: int, row: int, col: int) -> nat {
    let n = wrap_prev(row, height);
    let s = wrap_next(row, height);
    let w = wrap_prev(col, width);
    let e = wrap_next(col, width);
    cell_at(cells, width, n, w).value() + cell_at(cells, width, n, col).value()
        + cell_at(cells, width, n, e).value() + cell_at(cells, width, row, w).value()
        + cell_at(cells, width, row, e).value() + cell_at(cells, width, s, w).value()
        + cell_at(cells, width, s, col).value() + cell_at(cells, width, s, e).value()
}

/// The grid one generation after `cells`: every cell follows Conway's rule
/// on its neighbours in `cells`.
pub open spec fn generation(cells: Seq<Cell>, width: int, height: int) -> Seq<Cell> {
    Seq::new(
        cells.len(),
        |i: int| next_state(cells[i], live_neighbors(cells, width, height, i / width, i % width)),
    )
}

/// The grid `k` generations after `cells`.
pub open spec fn generations(cells: Seq<Cell>, width: int, height: int, k: nat) -> Seq<Cell>
    decreases k,
{
    if k == 0 {
        cells
    } else {
        generation(generations(cells, width, height, (k - 1) as nat), width, height)
    }
}

/// The cell at flat index `i` of the grid that a new universe starts with.
pub open spec fn seed_cell(i: int) -> Cell {
    if i % 2 == 0 || i % 7 == 0 {
        Cell::Alive
    } else {
        Cell::Dead
    }
}

/// The index before `i` on a ring of `n` positions.
fn wrap_dec(i: u32, n: u32) -> (r: u32)
    requires
        i < n,
    ensures
        r == wrap_prev(i as int, n as int),
        r < n,
{
    if i == 0 {
        n - 1
    } else {
        i - 1
    }
}

/// The index after `i` on a ring of `n` positions.
fn wrap_inc(i: u32, n: u32) -> (r: u32)
    requires
        i < n,
    ensures
        r == wrap_next(i as int, n as int),
        r < n,
{
    if i == n - 1 {
        0
    } else {
        i + 1
    }
}

/// `(row, col)` lies on a grid of `width` by `height`.
pub open spec fn in_grid(width: int, height: int, row: int, col: int) -> bool {
    0 <= row < height && 0 <= col < width
}

/// The flat index of `(row, col)` in a row-major buffer `width` cells wide
/// lies in the buffer and names that row and column alone.
pub proof fn lemma_index(width: int, height: int, row: int, col: int)
    requires
        in_grid(width, height, row, col),
    ensures
        0 <= row * width + col < width * height,
        (row * width + col) / width == row,
        (row * width + col) % width == col,
{
    assert(0 <= row * width + col < width * height) by (nonlinear_arith)
        requires
            0 <= row < height,
            0 <= col < width,
    ;
    lemma_fundamental_div_mod_converse(row * width + col, width, row, col);
}

/// The flat index that `(row, col)` names in a row-major buffer `width` cells wide.
pub open spec fn flat_index(width: int, coord: (u32, u32)) -> int {
    coord.0 * width + coord.1
}

/// Some coordinate pair of `coords` names flat index `i`.
pub open spec fn listed(coords: Seq<(u32, u32)>, width: int, i: int) -> bool {
    exists|k: int| 0 <= k < coords.len() && flat_index(width, coords[k]) == i
}

/// `a` comes before `b` in row-major order.
pub open spec fn row_major_before(a: (u32, u32), b: (u32, u32)) -> bool {
    a.0 < b.0 || (a.0 == b.0 && a.1 < b.1)
}

/// A buffer of `n` dead cells.
fn dead_cells(n: u32) -> (r: Vec<Cell>)
    ensures
        r@ == Seq::new(n as nat, |_i: int| Cell::Dead),
{
    let mut cells: Vec<Cell> = Vec::new();
    let mut i: u32 = 0;
    while i < n
        invariant
            i <= n,
            cells@ == Seq::new(i as nat, |_i: int| Cell::Dead),
        decreases n - i,
    {
        cells.push(Cell::Dead);
        i += 1;
        assert(cells@ =~= Seq::new(i as nat, |_i: int| Cell::Dead));
    }
    cells
}

/// In the generation after `cells`, the cell at `(row, col)` follows Conway's
/// rule on its live neighbours `n` in `cells`: a live cell with two or three
/// stays alive and with fewer or more dies; a dead cell with exactly three
/// comes alive and with any other number stays dead.
pub proof fn lemma_rule(cells: Seq<Cell>, width: int, height: int, row: int, col: int)
    requires
        cells.len() == width * height,
        in_grid(width, height, row, col),
    ensures
        ({
            let n = live_neighbors(cells, width, height, row, col);
            let now = cell_at(cells, width, row, col);
            let next = cell_at(generation(cells, width, height), width, row, col);
            &&& now == Cell::Alive && (n == 2 || n == 3) ==> next == Cell::Alive
            &&& now == Cell::Alive && (n < 2 || n > 3) ==> next == Cell::Dead
            &&& now == Cell::Dead && n == 3 ==> next == Cell::Alive
            &&& now == Cell::Dead && n != 3 ==> next == Cell::Dead
        }),
{
    lemma_index(width, height, row, col);
}

/// A grid of `width` columns and `height` rows, stored row-major.
pub struct Universe {
    width: u32,
    height: u32,
    cells: Vec<Cell>,
}

impl View for Universe {
    type V = Seq<Cell>;

    closed spec fn view(&self) -> Seq<Cell> {
        self.cells@
    }
}

impl Universe {
    /// The number of columns.
    pub closed spec fn spec_width(&self) -> int {
        self.width as int
    }

    /// The number of rows.
    pub closed spec fn spec_height(&self) -> int {
        self.height as int
    }

    /// The buffer holds one cell per grid position, and every flat index fits
    /// the `u32` arithmetic that computes it.
    pub open spec fn wf(&self) -> bool {
        &&& self@.len() == self.spec_width() * self.spec_height()
        &&& self.spec_width() * self.spec_height() <= u32::MAX
    }

    /// The cell at `(row, col)`.
    pub open spec fn spec_cell(&self, row: int, col: int) -> Cell {
        cell_at(self@, self.spec_width(), row, col)
    }

    /// A 128 by 128 grid whose cell at flat index `i` is alive exactly when
    /// `i` is a multiple of 2 or of 7.
    pub fn new() -> (r: Universe)
        ensures
            r.wf(),
            r.spec_width() == 128,
            r.spec_height() == 128,
            r@ == Seq::new(128 * 128, |i: int| seed_cell(i)),
    {
        let width: u32 = 128;
        let height: u32 = 128;

        let mut cells: Vec<Cell> = Vec::new();
        let mut i: u32 = 0;
        while i < width * height
            invariant
                width == 128,
                height == 128,
                i <= width * height,
                cells@ == Seq::new(i as nat, |j: int| seed_cell(j)),
            decreases width * height - i,
        {
            let cell = if i % 2 == 0 || i % 7 == 0 {
                Cell::Alive
            } else {
                Cell::Dead
            };
            cells.push(cell);
            i += 1;
            assert(cells@ =~= Seq::new(i as nat, |j: int| seed_cell(j)));
        }

        Universe { width, height, cells }
    }

    /// The number of columns.
    pub fn width(&self) -> (r: u32)
        ensures
            r == self.spec_width(),
    {
        self.width
    }

    /// The number of rows.
    pub fn height(&self) -> (r: u32)
        ensures
            r == self.spec_height(),
    {
        self.height
    }

    /// Sets the number of columns. Every cell becomes dead: the pattern is
    /// not kept.
    pub fn set_width(&mut self, width: u32)
        requires
            width * old(self).spec_height() <= u32::MAX,
        ensures
            final(self).wf(),
            final(self).spec_width() == width,
            final(self).spec_height() == old(self).spec_height(),
            final(self)@ == Seq::new((width * old(self).spec_height()) as nat, |_i: int| Cell::Dead),
    {
        self.width = width;
        self.cells = dead_cells(width * self.height);
    }

    /// Sets the number of rows. Every cell becomes dead: the pattern is not
    /// kept.
    pub fn set_height(&mut self, height: u32)
        requires
            old(self).spec_width() * height <= u32::MAX,
        ensures
            final(self).wf(),
            final(self).spec_width() == old(self).spec_width(),
            final(self).spec_height() == height,
            final(self)@ == Seq::new((old(self).spec_width() * height) as nat, |_i: int| Cell::Dead),
    {
        self.height = height;
        self.cells = dead_cells(self.width * height);
    }

    /// The cells, row by row.
    pub fn get_cells(&self) -> (r: &[Cell])
        ensures
            r@ == self@,
    {
        self.cells.as_slice()
    }

    /// Makes alive the cell at each `(row, column)` pair of `cells`; the
    /// others keep their state.
    pub fn set_cells(&mut self, cells: &[(u32, u32)])
        requires
            old(self).wf(),
            forall|k: int|
                0 <= k < cells@.len() ==> in_grid(
                    old(self).spec_width(),
                    old(self).spec_height(),
                    #[trigger] cells@[k].0 as int,
                    cells@[k].1 as int,
                ),
        ensures
            final(self).wf(),
            final(self).spec_width() == old(self).spec_width(),
            final(self).spec_height() == old(self).spec_height(),
            final(self)@ == Seq::new(
                old(self)@.len(),
                |i: int|
                    if listed(cells@, old(self).spec_width(), i) {
                        Cell::Alive
                    } else {
                        old(self)@[i]
                    },
            ),
    {
        let ghost start = self@;
        let ghost width = self.spec_width();
        let mut k: usize = 0;
        while k < cells.len()
            invariant
                self.wf(),
                self.spec_width() == old(self).spec_width(),
                self.spec_height() == old(self).spec_height(),
                start == old(self)@,
                width == old(self).spec_width(),
                k <= cells@.len(),
                forall|j: int|
                    0 <= j < cells@.len() ==> in_grid(
                        self.spec_width(),
                        self.spec_height(),
                        #[trigger] cells@[j].0 as int,
                        cells@[j].1 as int,
                    ),
                self@ == Seq::new(
                    start.len(),
                    |i: int|
                        if listed(cells@.take(k as int), width, i) {
                            Cell::Alive
                        } else {
                            start[i]
                        },
                ),
            decreases cells@.len() - k,
        {
            let (row, col) = cells[k];
            let idx = self.get_index(row, col);
            self.cells.set(idx, Cell::Alive);
            k += 1;
            assert forall|i: int| #![auto]
                listed(cells@.take(k as int), width, i) == (listed(
                    cells@.take(k - 1),
                    width,
                    i,
                ) || i == idx) by {
                if listed(cells@.take(k as int), width, i) {
                    let m = choose|m: int|
                        0 <= m < k && flat_index(width, #[trigger] cells@.take(k as int)[m]) == i;
                    if m < k - 1 {
                        assert(cells@.take(k - 1)[m] == cells@.take(k as int)[m]);
                    }
                }
                if listed(cells@.take(k - 1), width, i) {
                    let m = choose|m: int|
                        0 <= m < k - 1 && flat_index(width, #[trigger] cells@.take(k - 1)[m]) == i;
                    assert(cells@.take(k as int)[m] == cells@.take(k - 1)[m]);
                }
                if i == idx {
                    assert(cells@.take(k as int)[k - 1] == cells@[k - 1]);
                }
            }
            assert(self@ =~= Seq::new(
                start.len(),
                |i: int|
                    if listed(cells@.take(k as int), width, i) {
                        Cell::Alive
                    } else {
                        start[i]
                    },
            ));
        }
        assert(cells@.take(k as int) =~= cells@);
    }

    /// The `(row, column)` of every cell in `state`, in row-major order.
    pub fn cells_in_state(&self, state: Cell) -> (r: Vec<(u32, u32)>)
        requires
            self.wf(),
        ensures
            forall|k: int|
                0 <= k < r@.len() ==> {
                    &&& in_grid(self.spec_width(), self.spec_height(), #[trigger] r@[k].0 as int, r@[k].1 as int)
                    &&& self.spec_cell(r@[k].0 as int, r@[k].1 as int) == state
                },
            forall|k: int, l: int| 0 <= k < l < r@.len() ==> row_major_before(#[trigger] r@[k], #[trigger] r@[l]),
            forall|row: u32, col: u32|
                in_grid(self.spec_width(), self.spec_height(), row as int, col as int)
                    && #[trigger] self.spec_cell(row as int, col as int) == state ==> r@.contains((row, col)),
    {
        let mut found: Vec<(u32, u32)> = Vec::new();
        let mut row: u32 = 0;
        while row < self.height
            invariant
                self.wf(),
                row <= self.height,
                forall|k: int|
                    0 <= k < found@.len() ==> {
                        &&& in_grid(self.spec_width(), self.spec_height(), #[trigger] found@[k].0 as int, found@[k].1 as int)
                        &&& self.spec_cell(found@[k].0 as int, found@[k].1 as int) == state
                        &&& found@[k].0 < row
                    },
                forall|k: int, l: int|
                    0 <= k < l < found@.len() ==> row_major_before(#[trigger] found@[k], #[trigger] found@[l]),
                forall|r0: u32, c0: u32|
                    in_grid(self.spec_width(), self.spec_height(), r0 as int, c0 as int) && r0 < row
                        && #[trigger] self.spec_cell(r0 as int, c0 as int) == state ==> found@.contains((r0, c0)),
            decreases self.height - row,
        {
            let mut col: u32 = 0;
            while col < self.width
                invariant
                    self.wf(),
                    row < self.height,
                    col <= self.width,
                    forall|k: int|
                        0 <= k < found@.len() ==> {
                            &&& in_grid(self.spec_width(), self.spec_height(), #[trigger] found@[k].0 as int, found@[k].1 as int)
                            &&& self.spec_cell(found@[k].0 as int, found@[k].1 as int) == state
                            &&& row_major_before(found@[k], (row, col))
                        },
                    forall|k: int, l: int|
                        0 <= k < l < found@.len() ==> row_major_before(#[trigger] found@[k], #[trigger] found@[l]),
                    forall|r0: u32, c0: u32|
                        in_grid(self.spec_width(), self.spec_height(), r0 as int, c0 as int)
                            && row_major_before((r0, c0), (row, col))
                            && #[trigger] self.spec_cell(r0 as int, c0 as int) == state ==> found@.contains((r0, c0)),
                decreases self.width - col,
            {
                if self.cell(row, col) == state {
                    let ghost before = found@;
                    found.push((row, col));
                    assert forall|r0: u32, c0: u32|
                        in_grid(self.spec_width(), self.spec_height(), r0 as int, c0 as int)
                            && row_major_before((r0, c0), (row, (col + 1) as u32))
                            && #[trigger] self.spec_cell(r0 as int, c0 as int) == state implies found@.contains((r0, c0)) by {
                        if r0 == row && c0 == col {
                            assert(found@[before.len() as int] == (r0, c0));
                        } else {
                            let k = choose|k: int| 0 <= k < before.len() && before[k] == (r0, c0);
                            assert(found@[k] == (r0, c0));
                        }
                    }
                }
                col += 1;
            }
            row += 1;
        }
        found
    }

    /// Flips the cell at `(row, column)` between dead and alive; every other
    /// cell keeps its state.
    pub fn toggle_cell(&mut self, row: u32, column: u32)
        requires
            old(self).wf(),
            in_grid(old(self).spec_width(), old(self).spec_height(), row as int, column as int),
        ensures
            final(self).wf(),
            final(self).spec_width() == old(self).spec_width(),
            final(self).spec_height() == old(self).spec_height(),
            final(self)@ == old(self)@.update(
                row * old(self).spec_width() + column,
                old(self).spec_cell(row as int, column as int).flipped(),
            ),
    {
        let idx = self.get_index(row, column);
        let mut cell = self.cells[idx];
        cell.toggle();
        self.cells.set(idx, cell);
    }

    fn get_index(&self, row: u32, column: u32) -> (r: usize)
        requires
            self.wf(),
            in_grid(self.spec_width(), self.spec_height(), row as int, column as int),
        ensures
            r == row * self.spec_width() + column,
            r < self@.len(),
    {
        proof {
            lemma_index(self.width as int, self.height as int, row as int, column as int);
        }
        (row * self.width + column) as usize
    }

    fn cell(&self, row: u32, column: u32) -> (r: Cell)
        requires
            self.wf(),
            in_grid(self.spec_width(), self.spec_height(), row as int, column as int),
        ensures
            r == self.spec_cell(row as int, column as int),
    {
        let idx = self.get_index(row, column);
        self.cells[idx]
    }

    fn live_neighbor_count(&self, row: u32, column: u32) -> (r: u8)
        requires
            self.wf(),
            in_grid(self.spec_width(), self.spec_height(), row as int, column as int),
        ensures
            r == live_neighbors(self@, self.spec_width(), self.spec_height(), row as int, column as int),
    {
        let mut count: u8 = 0;

        let north = wrap_dec(row, self.height);
        let south = wrap_inc(row, self.height);
        let west = wrap_dec(column, self.width);
        let east = wrap_inc(column, self.width);

        count += self.cell(north, west).as_u8();
        count += self.cell(north, column).as_u8();
        count += self.cell(north, east).as_u8();
        count += self.cell(row, west).as_u8();
        count += self.cell(row, east).as_u8();
        count += self.cell(south, west).as_u8();
        count += self.cell(south, column).as_u8();
        count += self.cell(south, east).as_u8();
        count
    }

    /// Advances the grid by one generation. The next cells are computed into
    /// a separate buffer from the current ones, which then replaces them.
    pub fn tick(&mut self)
        requires
            old(self).wf(),
        ensures
            final(self).wf(),
            final(self).spec_width() == old(self).spec_width(),
            final(self).spec_height() == old(self).spec_height(),
            final(self)@ == generation(old(self)@, old(self).spec_width(), old(self).spec_height()),
    {
        let ghost g = generation(self@, self.spec_width(), self.spec_height());
        let mut next = self.cells.clone();

        let mut row: u32 = 0;
        while row < self.height
            invariant
                self.wf(),
                g == generation(self@, self.spec_width(), self.spec_height()),
                0 <= row <= self.height,
                next@.len() == self@.len(),
                forall|i: int| 0 <= i < row * self.width ==> next@[i] == g[i],
            decreases self.height - row,
        {
            let mut col: u32 = 0;
            while col < self.width
                invariant
                    self.wf(),
                    g == generation(self@, self.spec_width(), self.spec_height()),
                    0 <= row < self.height,
                    0 <= col <= self.width,
                    next@.len() == self@.len(),
                    forall|i: int| 0 <= i < row * self.width + col ==> next@[i] == g[i],
                decreases self.width - col,
            {
                let idx = self.get_index(row, col);
                let cell = self.cells[idx];
                let live_neighbors = self.live_neighbor_count(row, col);

                let next_cell = match (cell, live_neighbors) {
                    // Underpopulation.
                    (Cell::Alive, x) if x < 2 => Cell::Dead,
                    // Stasis.
                    (Cell::Alive, 2) | (Cell::Alive, 3) => Cell::Alive,
                    // Overpopulation.
                    (Cell::Alive, x) if x > 3 => Cell::Dead,
                    // Reproduction.
                    (Cell::Dead, 3) => Cell::Alive,
                    (otherwise, _) => otherwise,
                };

                proof {
                    lemma_index(self.width as int, self.height as int, row as int, col as int);
                }
                next.set(idx, next_cell);
                col += 1;
            }
            assert(row * self.width + self.width == (row + 1) * self.width) by (nonlinear_arith);
            row += 1;
        }
        assert(next@ =~= g);
        self.cells = next;
    }
}

} // verus!
