use crate::universe::{
    cell_at, generation, generations, in_grid, lemma_index, live_neighbors, next_state,
    wrap_next, wrap_prev, Cell,
};
use vstd::arithmetic::div_mod::{lemma_mod_pos_bound, lemma_multiply_divide_lt};
use vstd::prelude::*;

verus! {

/// `Alive` for true, `Dead` for false.
pub open spec fn state_of(alive: bool) -> Cell {
    if alive {
        Cell::Alive
    } else {
        Cell::Dead
    }
}

/// 1 for true, 0 for false.
pub open spec fn indicator(b: bool) -> nat {
    if b {
        1
    } else {
        0
    }
}

/// The grid of `width` by `height` whose cell at `(row, col)` is alive
/// exactly when `alive(row, col)`.
pub open spec fn pattern(width: int, height: int, alive: spec_fn(int, int) -> bool) -> Seq<Cell> {
    Seq::new((width * height) as nat, |i: int| state_of(alive(i / width, i % width)))
}

/// The positions among the eight toroidal neighbours of `(row, col)` at
/// which `alive` holds.
pub open spec fn pattern_count(
    width: int,
    height: int,
    alive: spec_fn(int, int) -> bool,
    row: int,
    col: int,
) -> nat {
    let n = wrap_prev(row, height);
    let s = wrap_next(row, height);
    let w = wrap_prev(col, width);
    let e = wrap_next(col, width);
    indicator(alive(n, w)) + indicator(alive(n, col)) + indicator(alive(n, e)) + indicator(
        alive(row, w),
    ) + indicator(alive(row, e)) + indicator(alive(s, w)) + indicator(alive(s, col))
        + indicator(alive(s, e))
}

proof fn lemma_pattern_cell(
    width: int,
    height: int,
    alive: spec_fn(int, int) -> bool,
    row: int,
    col: int,
)
    requires
        in_grid(width, height, row, col),
    ensures
        cell_at(pattern(width, height, alive), width, row, col) == state_of(alive(row, col)),
{
    lemma_index(width, height, row, col);
}

proof fn lemma_pattern_neighbors(
    width: int,
    height: int,
    alive: spec_fn(int, int) -> bool,
    row: int,
    col: int,
)
    requires
        in_grid(width, height, row, col),
    ensures
        live_neighbors(pattern(width, height, alive), width, height, row, col) == pattern_count(
            width,
            height,
            alive,
            row,
            col,
        ),
{
    let n = wrap_prev(row, height);
    let s = wrap_next(row, height);
    let w = wrap_prev(col, width);
    let e = wrap_next(col, width);
    lemma_pattern_cell(width, height, alive, n, w);
    lemma_pattern_cell(width, height, alive, n, col);
    lemma_pattern_cell(width, height, alive, n, e);
    lemma_pattern_cell(width, height, alive, row, w);
    lemma_pattern_cell(width, height, alive, row, e);
    lemma_pattern_cell(width, height, alive, s, w);
    lemma_pattern_cell(width, height, alive, s, col);
    lemma_pattern_cell(width, height, alive, s, e);
}

/// Where every cell of pattern `f` steps to the state that `g` gives it, the
/// generation after `f` is `g`.
proof fn lemma_pattern_step(
    width: int,
    height: int,
    f: spec_fn(int, int) -> bool,
    g: spec_fn(int, int) -> bool,
)
    requires
        width > 0,
        height > 0,
        forall|row: int, col: int|
            in_grid(width, height, row, col) ==> next_state(
                state_of(f(row, col)),
                #[trigger] pattern_count(width, height, f, row, col),
            ) == state_of(g(row, col)),
    ensures
        generation(pattern(width, height, f), width, height) == pattern(width, height, g),
{
    let cells = pattern(width, height, f);
    assert forall|i: int| 0 <= i < width * height implies #[trigger] generation(
        cells,
        width,
        height,
    )[i] == pattern(width, height, g)[i] by {
        let row = i / width;
        let col = i % width;
        lemma_multiply_divide_lt(i, width, height);
        lemma_mod_pos_bound(i, width);
        assert(0 <= row) by (nonlinear_arith)
            requires
                0 <= i,
                0 < width,
                row == i / width,
        ;
        lemma_pattern_neighbors(width, height, f, row, col);
    }
    assert(generation(cells, width, height) =~= pattern(width, height, g));
}

/// The 2 by 2 block whose top left cell is `(top, left)`.
pub open spec fn block(top: int, left: int) -> spec_fn(int, int) -> bool {
    |row: int, col: int| (row == top || row == top + 1) && (col == left || col == left + 1)
}

/// A 2 by 2 block on an otherwise dead grid of at least 4 by 4 is a still
/// life: it is the same after any number of generations.
pub proof fn lemma_block_still_life(width: int, height: int, top: int, left: int, k: nat)
    requires
        width >= 4,
        height >= 4,
        0 <= top,
        top + 1 < height,
        0 <= left,
        left + 1 < width,
    ensures
        generations(pattern(width, height, block(top, left)), width, height, k) == pattern(
            width,
            height,
            block(top, left),
        ),
    decreases k,
{
    let f = block(top, left);
    assert forall|row: int, col: int| in_grid(width, height, row, col) implies next_state(
        state_of(f(row, col)),
        #[trigger] pattern_count(width, height, f, row, col),
    ) == state_of(f(row, col)) by {}
    lemma_pattern_step(width, height, f, f);
    if k > 0 {
        lemma_block_still_life(width, height, top, left, (k - 1) as nat);
    }
}

/// Three live cells in a row, centred on `(row, col)`.
pub open spec fn blinker_row(centre_row: int, centre_col: int) -> spec_fn(int, int) -> bool {
    |row: int, col: int| row == centre_row && centre_col - 1 <= col <= centre_col + 1
}

/// Three live cells in a column, centred on `(row, col)`.
pub open spec fn blinker_column(centre_row: int, centre_col: int) -> spec_fn(int, int) -> bool {
    |row: int, col: int| col == centre_col && centre_row - 1 <= row <= centre_row + 1
}

/// A blinker on an otherwise dead grid of at least 5 by 5 turns from a row
/// into a column and back: it differs from itself after one generation and
/// is the same after two.
pub proof fn lemma_blinker_period_two(width: int, height: int, centre_row: int, centre_col: int)
    requires
        width >= 5,
        height >= 5,
        1 <= centre_row,
        centre_row + 1 < height,
        1 <= centre_col,
        centre_col + 1 < width,
    ensures
        ({
            let start = pattern(width, height, blinker_row(centre_row, centre_col));
            &&& generation(start, width, height) == pattern(
                width,
                height,
                blinker_column(centre_row, centre_col),
            )
            &&& generations(start, width, height, 1) != start
            &&& generations(start, width, height, 2) == start
        }),
{
    let f = blinker_row(centre_row, centre_col);
    let g = blinker_column(centre_row, centre_col);
    assert forall|row: int, col: int| in_grid(width, height, row, col) implies next_state(
        state_of(f(row, col)),
        #[trigger] pattern_count(width, height, f, row, col),
    ) == state_of(g(row, col)) by {}
    assert forall|row: int, col: int| in_grid(width, height, row, col) implies next_state(
        state_of(g(row, col)),
        #[trigger] pattern_count(width, height, g, row, col),
    ) == state_of(f(row, col)) by {}
    lemma_pattern_step(width, height, f, g);
    lemma_pattern_step(width, height, g, f);
    let start = pattern(width, height, f);
    let one = pattern(width, height, g);
    assert(generations(start, width, height, 1) == one) by {
        assert(generations(start, width, height, 0) == start);
    }
    assert(generations(start, width, height, 2) == start) by {
        assert(generations(start, width, height, 1) == one);
    }
    lemma_pattern_cell(width, height, f, centre_row, centre_col - 1);
    lemma_pattern_cell(width, height, g, centre_row, centre_col - 1);
    assert(start[centre_row * width + centre_col - 1] != one[centre_row * width + centre_col - 1]);
}

} // verus!
