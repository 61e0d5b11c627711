use vstd::prelude::*;
use vstd::arithmetic::div_mod::{lemma_fundamental_div_mod, lemma_mod_bound};
use crate::cell::Cell;
use crate::config::EdgeRule;
use crate::grid::{Grid, lemma_index, lemma_shifted};

verus! {

/// The grid of a given size whose cell at a position lives where `alive` says so.
pub open spec fn grid_of(
    width: nat,
    height: nat,
    edge: EdgeRule,
    alive: spec_fn(int, int) -> bool,
) -> Grid {
    Grid {
        width,
        height,
        edge,
        cells: Seq::new(
            width * height,
            |i: int|
                if alive(i / (width as int), i % (width as int)) {
                    Cell::Alive
                } else {
                    Cell::Dead
                },
        ),
    }
}

/// A coordinate one step beyond an axis, brought back onto it from the other side.
pub open spec fn wrapped(at: int, extent: nat) -> int {
    if at < 0 {
        at + extent
    } else if at >= extent {
        at - extent
    } else {
        at
    }
}

/// Three living cells side by side in row `row`, the middle one in column `col`.
pub open spec fn horizontal_blinker(row: int, col: int) -> spec_fn(int, int) -> bool {
    |r: int, c: int| r == row && col - 1 <= c <= col + 1
}

/// Three living cells one above the other in column `col`, the middle one in row `row`.
pub open spec fn vertical_blinker(row: int, col: int) -> spec_fn(int, int) -> bool {
    |r: int, c: int| c == col && row - 1 <= r <= row + 1
}

/// The row and column of a cell's index lie on the grid.
pub proof fn lemma_position(grid: Grid, i: int)
    requires
        grid.wf(),
        0 <= i < grid.cells.len(),
    ensures
        grid.in_bounds(i / (grid.width as int), i % (grid.width as int)),
        grid.index(i / (grid.width as int), i % (grid.width as int)) == i,
{
    let w = grid.width as int;
    assert(w > 0) by (nonlinear_arith)
        requires
            grid.width * grid.height > 0,
            w == grid.width,
    ;
    let row = i / w;
    let col = i % w;
    lemma_fundamental_div_mod(i, w);
    lemma_mod_bound(i, w);
    assert(0 <= row < grid.height) by (nonlinear_arith)
        requires
            i == w * row + col,
            0 <= col < w,
            0 <= i < w * grid.height,
    ;
    assert(w * row == row * w) by (nonlinear_arith);
}

/// The cell of `grid_of` at a position lives where `alive` says so.
pub proof fn lemma_grid_of_cell(
    width: nat,
    height: nat,
    edge: EdgeRule,
    alive: spec_fn(int, int) -> bool,
    row: int,
    col: int,
)
    requires
        0 <= row < height,
        0 <= col < width,
    ensures
        grid_of(width, height, edge, alive).wf(),
        grid_of(width, height, edge, alive).cell(row, col) == if alive(row, col) {
            Cell::Alive
        } else {
            Cell::Dead
        },
{
    lemma_index(grid_of(width, height, edge, alive), row, col);
}

/// Under `Wrap`, a neighbour of a position in `grid_of` counts where `alive` holds
/// of the wrapped coordinates.
pub proof fn lemma_grid_of_neighbor(
    width: nat,
    height: nat,
    alive: spec_fn(int, int) -> bool,
    row: int,
    col: int,
    delta_row: int,
    delta_col: int,
)
    requires
        0 <= row < height,
        0 <= col < width,
        -1 <= delta_row <= 1,
        -1 <= delta_col <= 1,
    ensures
        grid_of(width, height, EdgeRule::Wrap, alive).neighbor(row, col, delta_row, delta_col)
            == if alive(wrapped(row + delta_row, height), wrapped(col + delta_col, width)) {
            1nat
        } else {
            0nat
        },
{
    lemma_shifted(EdgeRule::Wrap, row, delta_row, height);
    lemma_shifted(EdgeRule::Wrap, col, delta_col, width);
    lemma_grid_of_cell(
        width,
        height,
        EdgeRule::Wrap,
        alive,
        wrapped(row + delta_row, height),
        wrapped(col + delta_col, width),
    );
}

/// Under `Wrap`, the eight neighbours of a position in `grid_of`.
pub proof fn lemma_grid_of_neighbors(
    width: nat,
    height: nat,
    alive: spec_fn(int, int) -> bool,
    row: int,
    col: int,
)
    requires
        0 <= row < height,
        0 <= col < width,
    ensures
        forall|delta_row: int, delta_col: int|
            -1 <= delta_row <= 1 && -1 <= delta_col <= 1 ==> #[trigger] grid_of(
                width,
                height,
                EdgeRule::Wrap,
                alive,
            ).neighbor(row, col, delta_row, delta_col) == if alive(
                wrapped(row + delta_row, height),
                wrapped(col + delta_col, width),
            ) {
                1nat
            } else {
                0nat
            },
{
    assert forall|delta_row: int, delta_col: int|
        -1 <= delta_row <= 1 && -1 <= delta_col <= 1 implies #[trigger] grid_of(
        width,
        height,
        EdgeRule::Wrap,
        alive,
    ).neighbor(row, col, delta_row, delta_col) == if alive(
        wrapped(row + delta_row, height),
        wrapped(col + delta_col, width),
    ) {
        1nat
    } else {
        0nat
    } by {
        lemma_grid_of_neighbor(width, height, alive, row, col, delta_row, delta_col);
    }
}

/// A horizontal blinker turns into the vertical one about the same middle cell.
pub proof fn lemma_horizontal_turns_vertical(width: nat, height: nat, row: int, col: int)
    requires
        width >= 5,
        height >= 5,
        1 <= row <= height - 2,
        1 <= col <= width - 2,
    ensures
        grid_of(width, height, EdgeRule::Wrap, horizontal_blinker(row, col)).step() == grid_of(
            width,
            height,
            EdgeRule::Wrap,
            vertical_blinker(row, col),
        ),
{
    let before = grid_of(width, height, EdgeRule::Wrap, horizontal_blinker(row, col));
    let after = grid_of(width, height, EdgeRule::Wrap, vertical_blinker(row, col));
    let w = width as int;
    assert forall|i: int| 0 <= i < before.cells.len() implies before.step().cells[i]
        == after.cells[i] by {
        lemma_position(before, i);
        let r = i / w;
        let c = i % w;
        lemma_grid_of_cell(width, height, EdgeRule::Wrap, horizontal_blinker(row, col), r, c);
        lemma_grid_of_neighbors(width, height, horizontal_blinker(row, col), r, c);
    }
    assert(before.step().cells =~= after.cells);
}

/// A vertical blinker turns into the horizontal one about the same middle cell.
pub proof fn lemma_vertical_turns_horizontal(width: nat, height: nat, row: int, col: int)
    requires
        width >= 5,
        height >= 5,
        1 <= row <= height - 2,
        1 <= col <= width - 2,
    ensures
        grid_of(width, height, EdgeRule::Wrap, vertical_blinker(row, col)).step() == grid_of(
            width,
            height,
            EdgeRule::Wrap,
            horizontal_blinker(row, col),
        ),
{
    let before = grid_of(width, height, EdgeRule::Wrap, vertical_blinker(row, col));
    let after = grid_of(width, height, EdgeRule::Wrap, horizontal_blinker(row, col));
    let w = width as int;
    assert forall|i: int| 0 <= i < before.cells.len() implies before.step().cells[i]
        == after.cells[i] by {
        lemma_position(before, i);
        let r = i / w;
        let c = i % w;
        lemma_grid_of_cell(width, height, EdgeRule::Wrap, vertical_blinker(row, col), r, c);
        lemma_grid_of_neighbors(width, height, vertical_blinker(row, col), r, c);
    }
    assert(before.step().cells =~= after.cells);
}

/// The blinker oscillates with period two: on a grid of at least five by five
/// cells under `Wrap`, three living cells side by side, all others dead, become
/// three living cells one above the other in the next generation, and are back
/// in the generation after that.
pub proof fn lemma_blinker_period_two(width: nat, height: nat, row: int, col: int)
    requires
        width >= 5,
        height >= 5,
        1 <= row <= height - 2,
        1 <= col <= width - 2,
    ensures
        grid_of(width, height, EdgeRule::Wrap, horizontal_blinker(row, col)).step() == grid_of(
            width,
            height,
            EdgeRule::Wrap,
            vertical_blinker(row, col),
        ),
        grid_of(width, height, EdgeRule::Wrap, horizontal_blinker(row, col)).step().step()
            == grid_of(width, height, EdgeRule::Wrap, horizontal_blinker(row, col)),
{
    lemma_horizontal_turns_vertical(width, height, row, col);
    lemma_vertical_turns_horizontal(width, height, row, col);
}

/// One living cell, in the first row and first column.
pub open spec fn corner_cell() -> spec_fn(int, int) -> bool {
    |r: int, c: int| r == 0 && c == 0
}

/// Wraparound adjacency, counted: on a grid of at least three by three cells under
/// `Wrap` whose only living cell is the first of the first row, the last cell of
/// the last row, the first cell of the last row and the last cell of the first
/// row each have exactly one living neighbour.
pub proof fn lemma_corner_cell_counts_once(width: nat, height: nat)
    requires
        width >= 3,
        height >= 3,
    ensures
        grid_of(width, height, EdgeRule::Wrap, corner_cell()).live_neighbors(
            height - 1,
            width - 1,
        ) == 1,
        grid_of(width, height, EdgeRule::Wrap, corner_cell()).live_neighbors(height - 1, 0) == 1,
        grid_of(width, height, EdgeRule::Wrap, corner_cell()).live_neighbors(0, width - 1) == 1,
{
    lemma_grid_of_neighbors(width, height, corner_cell(), height - 1, width - 1);
    lemma_grid_of_neighbors(width, height, corner_cell(), height - 1, 0);
    lemma_grid_of_neighbors(width, height, corner_cell(), 0, width - 1);
}

} // verus!
