use vstd::prelude::*;
use vstd::arithmetic::div_mod::lemma_fundamental_div_mod_converse;
use crate::cell::Cell;
use crate::config::EdgeRule;

verus! {

/// A grid as a plain value: its size, its cells row by row, and its edge rule.
pub struct Grid {
    pub width: nat,
    pub height: nat,
    pub cells: Seq<Cell>,
    pub edge: EdgeRule,
}

/// The state of a cell in the next generation, from its state and the number of
/// its living neighbours: a living cell lives on with two or three of them, a dead
/// cell comes alive with exactly three.
pub open spec fn rule(cell: Cell, live_neighbors: nat) -> Cell {
    match cell {
        Cell::Alive => if live_neighbors == 2 || live_neighbors == 3 {
            Cell::Alive
        } else {
            Cell::Dead
        },
        Cell::Dead => if live_neighbors == 3 {
            Cell::Alive
        } else {
            Cell::Dead
        },
    }
}

/// The coordinate `delta` steps from `at` on an axis of `extent` positions: taken
/// modulo `extent` under `Wrap`; under `Truncate` there is none beyond the axis.
pub open spec fn shifted(edge: EdgeRule, at: int, delta: int, extent: nat) -> Option<int> {
    match edge {
        EdgeRule::Wrap => if extent > 0 {
            Some((at + delta) % (extent as int))
        } else {
            None
        },
        EdgeRule::Truncate => if 0 <= at + delta < extent {
            Some(at + delta)
        } else {
            None
        },
    }
}

impl Grid {
    /// The grid holds one cell for each position.
    pub open spec fn wf(self) -> bool {
        self.cells.len() == self.width * self.height
    }

    /// The position lies on the grid.
    pub open spec fn in_bounds(self, row: int, col: int) -> bool {
        0 <= row < self.height && 0 <= col < self.width
    }

    /// Where the cell of a position stands in `cells`.
    pub open spec fn index(self, row: int, col: int) -> int {
        row * self.width + col
    }

    /// The cell at a position.
    pub open spec fn cell(self, row: int, col: int) -> Cell
        recommends
            self.in_bounds(row, col),
    {
        self.cells[self.index(row, col)]
    }

    /// Every cell is dead.
    pub open spec fn all_dead(self) -> bool {
        forall|i: int| 0 <= i < self.cells.len() ==> self.cells[i] == Cell::Dead
    }

    /// What the neighbour `(delta_row, delta_col)` steps from a position adds to the
    /// count of its living neighbours: 1 where there is such a neighbour and it
    /// lives, otherwise 0.
    pub open spec fn neighbor(self, row: int, col: int, delta_row: int, delta_col: int) -> nat {
        match (
            shifted(self.edge, row, delta_row, self.height),
            shifted(self.edge, col, delta_col, self.width),
        ) {
            (Some(r), Some(c)) => self.cell(r, c).weight(),
            _ => 0,
        }
    }

    /// The number of living cells among the eight neighbours of a position.
    pub open spec fn live_neighbors(self, row: int, col: int) -> nat {
        self.neighbor(row, col, -1, -1) + self.neighbor(row, col, -1, 0) + self.neighbor(
            row,
            col,
            -1,
            1,
        ) + self.neighbor(row, col, 0, -1) + self.neighbor(row, col, 0, 1) + self.neighbor(
            row,
            col,
            1,
            -1,
        ) + self.neighbor(row, col, 1, 0) + self.neighbor(row, col, 1, 1)
    }

    /// The state of a position in the next generation.
    pub open spec fn next_cell(self, row: int, col: int) -> Cell {
        rule(self.cell(row, col), self.live_neighbors(row, col))
    }

    /// The next generation: every cell is computed from this generation alone.
    pub open spec fn step(self) -> Grid {
        Grid {
            cells: Seq::new(
                self.cells.len(),
                |i: int| self.next_cell(i / (self.width as int), i % (self.width as int)),
            ),
            ..self
        }
    }
}

/// A position on the grid has its cell inside `cells`, and is found again from
/// the cell's index.
pub proof fn lemma_index(grid: Grid, row: int, col: int)
    requires
        grid.wf(),
        grid.in_bounds(row, col),
    ensures
        0 <= grid.index(row, col) < grid.cells.len(),
        grid.index(row, col) / (grid.width as int) == row,
        grid.index(row, col) % (grid.width as int) == col,
{
    let w = grid.width as int;
    let h = grid.height as int;
    assert(0 <= row * w && (row + 1) * w <= h * w) by (nonlinear_arith)
        requires
            0 <= row < h,
            0 <= w,
    ;
    assert((row + 1) * w == row * w + w) by (nonlinear_arith);
    assert(grid.width * grid.height == h * w) by (nonlinear_arith)
        requires
            w == grid.width,
            h == grid.height,
    ;
    lemma_fundamental_div_mod_converse(row * w + col, w, row, col);
}

/// The next generation has the size and the edge rule of this one, and one cell
/// for each position.
pub proof fn lemma_step_wf(grid: Grid)
    requires
        grid.wf(),
    ensures
        grid.step().wf(),
        grid.step().width == grid.width,
        grid.step().height == grid.height,
        grid.step().edge == grid.edge,
{
}

/// A coordinate that `shifted` gives lies on its axis; one step back from the
/// first position wraps to the last, one step on from the last wraps to the first.
pub proof fn lemma_shifted(edge: EdgeRule, at: int, delta: int, extent: nat)
    requires
        0 <= at < extent,
        -1 <= delta <= 1,
    ensures
        shifted(edge, at, delta, extent) is Some ==> 0 <= shifted(edge, at, delta, extent)->0
            < extent,
        edge == EdgeRule::Wrap ==> shifted(edge, at, delta, extent) == Some(
            if at + delta < 0 {
                extent - 1
            } else if at + delta >= extent {
                0
            } else {
                at + delta
            },
        ),
{
    let n = extent as int;
    if at + delta < 0 {
        lemma_fundamental_div_mod_converse(at + delta, n, -1, n - 1);
    } else if at + delta >= n {
        lemma_fundamental_div_mod_converse(at + delta, n, 1, 0);
    } else {
        lemma_fundamental_div_mod_converse(at + delta, n, 0, at + delta);
    }
}

/// A neighbour adds at most 1 to the count, and nothing on a grid without life.
pub proof fn lemma_neighbor(grid: Grid, row: int, col: int, delta_row: int, delta_col: int)
    requires
        grid.wf(),
        grid.in_bounds(row, col),
        -1 <= delta_row <= 1,
        -1 <= delta_col <= 1,
    ensures
        grid.neighbor(row, col, delta_row, delta_col) <= 1,
        grid.all_dead() ==> grid.neighbor(row, col, delta_row, delta_col) == 0,
{
    lemma_shifted(grid.edge, row, delta_row, grid.height);
    lemma_shifted(grid.edge, col, delta_col, grid.width);
    match (
        shifted(grid.edge, row, delta_row, grid.height),
        shifted(grid.edge, col, delta_col, grid.width),
    ) {
        (Some(r), Some(c)) => {
            lemma_index(grid, r, c);
        },
        _ => {},
    }
}

/// A position has at most eight living neighbours, and none on a grid without life.
pub proof fn lemma_live_neighbors(grid: Grid, row: int, col: int)
    requires
        grid.wf(),
        grid.in_bounds(row, col),
    ensures
        grid.live_neighbors(row, col) <= 8,
        grid.all_dead() ==> grid.live_neighbors(row, col) == 0,
{
    lemma_neighbor(grid, row, col, -1, -1);
    lemma_neighbor(grid, row, col, -1, 0);
    lemma_neighbor(grid, row, col, -1, 1);
    lemma_neighbor(grid, row, col, 0, -1);
    lemma_neighbor(grid, row, col, 0, 1);
    lemma_neighbor(grid, row, col, 1, -1);
    lemma_neighbor(grid, row, col, 1, 0);
    lemma_neighbor(grid, row, col, 1, 1);
}

/// No spontaneous life: the generation that follows a grid without a living cell
/// is that grid again, under either edge rule and at any size.
pub proof fn lemma_dead_grid_stays_dead(grid: Grid)
    requires
        grid.wf(),
        grid.all_dead(),
    ensures
        grid.step().all_dead(),
        grid.step() == grid,
{
    let next = grid.step();
    let w = grid.width as int;
    assert forall|i: int| 0 <= i < next.cells.len() implies next.cells[i] == Cell::Dead by {
        assert(w > 0) by (nonlinear_arith)
            requires
                grid.width * grid.height > 0,
                w == grid.width,
        ;
        let row = i / w;
        let col = i % w;
        vstd::arithmetic::div_mod::lemma_fundamental_div_mod(i, w);
        vstd::arithmetic::div_mod::lemma_mod_bound(i, w);
        assert(0 <= row < grid.height) by (nonlinear_arith)
            requires
                i == w * row + col,
                0 <= col < w,
                0 <= i < w * grid.height,
        ;
        lemma_live_neighbors(grid, row, col);
    }
    assert(next.cells =~= grid.cells);
}

/// Wraparound adjacency: on a grid of any size under `Wrap`, a living cell in the
/// first row and first column is counted among the neighbours of the last cell of
/// the last row, of the first cell of the last row, and of the last cell of the
/// first row.
pub proof fn lemma_corner_wraps(grid: Grid)
    requires
        grid.wf(),
        grid.edge == EdgeRule::Wrap,
        grid.width > 0,
        grid.height > 0,
        grid.cell(0, 0) == Cell::Alive,
    ensures
        grid.neighbor(grid.height - 1, grid.width - 1, 1, 1) == 1,
        grid.neighbor(grid.height - 1, 0, 1, 0) == 1,
        grid.neighbor(0, grid.width - 1, 0, 1) == 1,
        grid.live_neighbors(grid.height - 1, grid.width - 1) >= 1,
        grid.live_neighbors(grid.height - 1, 0) >= 1,
        grid.live_neighbors(0, grid.width - 1) >= 1,
{
    let h = grid.height as int;
    let w = grid.width as int;
    lemma_shifted(grid.edge, h - 1, 1, grid.height);
    lemma_shifted(grid.edge, w - 1, 1, grid.width);
    lemma_shifted(grid.edge, 0, 0, grid.height);
    lemma_shifted(grid.edge, 0, 0, grid.width);
}

} // verus!
