use vstd::prelude::*;
use vstd::string::StringExecFns;
use crate::cell::Cell;
use crate::config::{ConfigView, EdgeRule, InputView, UniverseConfig, UniverseInput, default_config};
use crate::entropy::{cells_from_bytes, cells_of_bytes, fill_random};
use crate::grid::{Grid, lemma_index, lemma_shifted, shifted};
use crate::rle::layout::run_of;
use crate::rle::{DecodeError, decode, decoded};
use crate::sizer::{
    GridSize,
    RowColCount,
    cells_across,
    count_across,
    resolve_size,
    resolved_size,
    size_fits,
};

verus! {

/// The glyph of a dead cell in a rendered grid.
pub const DEAD_GLYPH: char = '\u{25fb}';

/// The glyph of a living cell in a rendered grid.
pub const ALIVE_GLYPH: char = '\u{25fc}';

/// Why a universe could not be filled.
#[derive(Clone, Copy, Debug, PartialEq, Eq, Structural)]
pub enum BuildError {
    /// The pattern text of the configuration was refused.
    Pattern(DecodeError),
    /// The system's random number source failed.
    EntropyUnavailable,
}

/// A grid of cells with its configuration and the window of it that is shown.
pub struct Universe {
    width: u32,
    height: u32,
    cells: Vec<Cell>,
    config: UniverseConfig,
    visible_rows: u32,
    visible_columns: u32,
    visible_row_start_position: u32,
    visible_column_start_position: u32,
}

impl View for Universe {
    type V = Grid;

    closed spec fn view(&self) -> Grid {
        Grid {
            width: self.width as nat,
            height: self.height as nat,
            cells: self.cells@,
            edge: self.config@.edge_rule,
        }
    }
}

/// The glyph that stands for a cell in a rendered grid.
pub open spec fn glyph_of(cell: Cell) -> char {
    match cell {
        Cell::Dead => DEAD_GLYPH,
        Cell::Alive => ALIVE_GLYPH,
    }
}

/// The text of the first `rows` rows of a grid: for each row one glyph for each
/// cell, then a line feed.
pub open spec fn rendered_rows(grid: Grid, rows: nat) -> Seq<char>
    decreases rows,
{
    if rows == 0 {
        Seq::empty()
    } else {
        rendered_rows(grid, (rows - 1) as nat) + Seq::new(
            grid.width,
            |col: int| glyph_of(grid.cell(rows - 1, col)),
        ) + seq!['\n']
    }
}

/// The text of a grid.
pub open spec fn rendered(grid: Grid) -> Seq<char> {
    rendered_rows(grid, grid.height)
}

/// The display capacity of a canvas under a configuration: the columns and rows
/// of cells that it shows.
pub open spec fn capacity_of(config: ConfigView, canvas_width: u32, canvas_height: u32) -> RowColCount {
    RowColCount {
        rows: cells_across(
            canvas_height as nat,
            config.border_width as nat,
            config.cell_size as nat,
            config.allow_overflow,
        ) as u32,
        cols: cells_across(
            canvas_width as nat,
            config.border_width as nat,
            config.cell_size as nat,
            config.allow_overflow,
        ) as u32,
    }
}

/// The canvas can be measured in cells: a cell with its line is not empty, and
/// the canvas with one line fits in 32 bits.
pub open spec fn measurable(config: ConfigView, canvas_width: u32, canvas_height: u32) -> bool {
    &&& config.cell_size + config.border_width > 0
    &&& canvas_width + config.border_width <= u32::MAX
    &&& canvas_height + config.border_width <= u32::MAX
}

/// A universe can be built on the canvas: the canvas can be measured, the
/// resolved width and height fit in 32 bits, and the number of cells fits in memory.
pub open spec fn buildable(config: ConfigView, canvas_width: u32, canvas_height: u32) -> bool {
    let capacity = capacity_of(config, canvas_width, canvas_height);
    let size = resolved_size(config.padding, config.override_size, capacity);
    &&& measurable(config, canvas_width, canvas_height)
    &&& size_fits(config.padding, config.override_size, capacity)
    &&& size.width * size.height <= usize::MAX
}

/// The coordinate `delta` steps from `at` on an axis of `extent` positions, if
/// the edge rule gives one.
pub fn shift(edge: EdgeRule, at: u32, delta: i8, extent: u32) -> (moved: Option<u32>)
    requires
        at < extent,
        -1 <= delta <= 1,
    ensures
        match shifted(edge, at as int, delta as int, extent as nat) {
            Some(coordinate) => moved == Some(coordinate as u32) && 0 <= coordinate < extent,
            None => moved is None,
        },
{
    proof {
        lemma_shifted(edge, at as int, delta as int, extent as nat);
    }
    let target: i64 = at as i64 + delta as i64;
    match edge {
        EdgeRule::Wrap => {
            if target < 0 {
                Some(extent - 1)
            } else if target >= extent as i64 {
                Some(0)
            } else {
                Some(target as u32)
            }
        },
        EdgeRule::Truncate => {
            if 0 <= target && target < extent as i64 {
                Some(target as u32)
            } else {
                None
            }
        },
    }
}

impl Universe {
    /// The universe holds one cell for each position of its grid.
    pub closed spec fn wf(&self) -> bool {
        self.cells@.len() == self.width * self.height
    }

    /// The size of the grid and of its visible window.
    pub closed spec fn size(&self) -> GridSize {
        GridSize {
            width: self.width,
            height: self.height,
            visible_columns: self.visible_columns,
            visible_rows: self.visible_rows,
            visible_row_start_position: self.visible_row_start_position,
            visible_column_start_position: self.visible_column_start_position,
        }
    }

    /// The configuration of the universe.
    pub closed spec fn spec_config(&self) -> ConfigView {
        self.config@
    }

    /// Validity as the view shows it.
    pub proof fn lemma_view(&self)
        ensures
            self.wf() == self@.wf(),
            self@.width == self.size().width,
            self@.height == self.size().height,
            self@.edge == self.spec_config().edge_rule,
    {
    }

    /// Create a new Universe with default parameters and no cells.
    pub fn new() -> (universe: Self)
        ensures
            universe.wf(),
            universe@.cells == Seq::<Cell>::empty(),
            universe.spec_config() == default_config(),
            universe.size() == (GridSize {
                width: 0,
                height: 0,
                visible_columns: 0,
                visible_rows: 0,
                visible_row_start_position: 0,
                visible_column_start_position: 0,
            }),
    {
        Universe::from(UniverseConfig::new())
    }

    /// Create a Universe with the given configuration and no cells.
    pub fn from(conf: UniverseConfig) -> (universe: Self)
        ensures
            universe.wf(),
            universe@.cells == Seq::<Cell>::empty(),
            universe.spec_config() == conf@,
            universe.size() == (GridSize {
                width: 0,
                height: 0,
                visible_columns: 0,
                visible_rows: 0,
                visible_row_start_position: 0,
                visible_column_start_position: 0,
            }),
    {
        Universe {
            config: conf,
            width: 0,
            height: 0,
            cells: Vec::new(),
            visible_columns: 0,
            visible_rows: 0,
            visible_row_start_position: 0,
            visible_column_start_position: 0,
        }
    }

    /// Create a Universe of `width` by `height` from a pattern text, with the
    /// default configuration and all of the grid visible.
    pub fn from_pattern(width: u32, height: u32, text: &[u8]) -> (result: Result<Self, DecodeError>)
        requires
            width * height <= usize::MAX,
        ensures
            match decoded(text@, width as nat, height as nat) {
                Ok(cells) => result is Ok && result->Ok_0@.cells == cells && result->Ok_0.wf()
                    && result->Ok_0.spec_config() == default_config() && result->Ok_0.size() == (
                    GridSize {
                        width,
                        height,
                        visible_columns: width,
                        visible_rows: height,
                        visible_row_start_position: 0,
                        visible_column_start_position: 0,
                    }),
                Err(error) => result is Err && result->Err_0 == error,
            },
    {
        match decode(text, width, height) {
            Ok(cells) => Ok(
                Universe {
                    config: UniverseConfig::new(),
                    width,
                    height,
                    cells,
                    visible_columns: width,
                    visible_rows: height,
                    visible_row_start_position: 0,
                    visible_column_start_position: 0,
                },
            ),
            Err(error) => Err(error),
        }
    }

    /// Measures a canvas in cells: how many columns and rows of cells it shows.
    pub fn calculate_visible_grid_size(&self, canvas_width: u32, canvas_height: u32) -> (count:
        RowColCount)
        requires
            measurable(self.spec_config(), canvas_width, canvas_height),
        ensures
            count == capacity_of(self.spec_config(), canvas_width, canvas_height),
    {
        let line_width: u32 = self.config.get_border_width();
        let cell_size: u32 = self.config.get_cell_size();
        let whole_only: bool = self.config.get_allow_overflow();
        let visible_columns: u32 = count_across(canvas_width, line_width, cell_size, whole_only);
        let visible_rows: u32 = count_across(canvas_height, line_width, cell_size, whole_only);
        RowColCount { rows: visible_rows, cols: visible_columns }
    }

    /// Whether the universe can be built on a canvas of the given size.
    pub fn can_build(&self, canvas_width: u32, canvas_height: u32) -> (possible: bool)
        ensures
            possible == buildable(self.spec_config(), canvas_width, canvas_height),
    {
        let border: u64 = self.config.get_border_width() as u64;
        let cell: u64 = self.config.get_cell_size() as u64;
        if cell + border == 0 || canvas_width as u64 + border > 0xffff_ffff || canvas_height as u64
            + border > 0xffff_ffff {
            return false;
        }
        let capacity = self.calculate_visible_grid_size(canvas_width, canvas_height);
        let padding: u64 = self.config.get_padding() as u64;
        let (base_width, base_height) = match self.config.get_override_size() {
            Some(size) => size,
            None => (capacity.cols, capacity.rows),
        };
        let width: u64 = base_width as u64 + 2 * padding;
        let height: u64 = base_height as u64 + 2 * padding;
        if width > 0xffff_ffff || height > 0xffff_ffff {
            return false;
        }
        assert(width * height <= u64::MAX) by (nonlinear_arith)
            requires
                width <= u32::MAX,
                height <= u32::MAX,
        ;
        width * height <= usize::MAX as u64
    }

    /// Sizes the universe for a canvas and leaves every cell dead.
    pub fn resize(&mut self, canvas_width: u32, canvas_height: u32)
        requires
            buildable(old(self).spec_config(), canvas_width, canvas_height),
        ensures
            final(self).wf(),
            final(self).spec_config() == old(self).spec_config(),
            final(self).size() == resolved_size(
                old(self).spec_config().padding,
                old(self).spec_config().override_size,
                capacity_of(old(self).spec_config(), canvas_width, canvas_height),
            ),
            final(self)@.cells == run_of(
                Cell::Dead,
                (final(self).size().width * final(self).size().height) as nat,
            ),
    {
        let capacity = self.calculate_visible_grid_size(canvas_width, canvas_height);
        let size = resolve_size(
            self.config.get_padding(),
            self.config.get_override_size(),
            capacity,
        );
        assert(size.width * size.height <= u64::MAX) by (nonlinear_arith)
            requires
                size.width <= u32::MAX,
                size.height <= u32::MAX,
        ;
        let total: u64 = (size.width as u64) * (size.height as u64);
        let mut cells: Vec<Cell> = Vec::new();
        crate::rle::layout::push_run(&mut cells, Cell::Dead, total, total as usize);
        assert(cells@ =~= run_of(Cell::Dead, total as nat));
        self.width = size.width;
        self.height = size.height;
        self.visible_columns = size.visible_columns;
        self.visible_rows = size.visible_rows;
        self.visible_row_start_position = size.visible_row_start_position;
        self.visible_column_start_position = size.visible_column_start_position;
        self.cells = cells;
    }

    /// Fills the grid from random bytes, one for each cell: an even byte gives a
    /// dead cell, an odd byte a living one.
    pub fn seed(&mut self, bytes: &[u8])
        requires
            old(self).wf(),
            bytes@.len() == old(self)@.cells.len(),
        ensures
            final(self).wf(),
            final(self)@.cells == cells_of_bytes(bytes@),
            final(self).size() == old(self).size(),
            final(self).spec_config() == old(self).spec_config(),
    {
        self.cells = cells_from_bytes(bytes);
    }

    /// Fills the grid from a pattern text. A text that is refused leaves the
    /// universe as it was.
    pub fn load_pattern(&mut self, text: &[u8]) -> (result: Result<(), DecodeError>)
        requires
            old(self).wf(),
        ensures
            final(self).wf(),
            final(self).size() == old(self).size(),
            final(self).spec_config() == old(self).spec_config(),
            match decoded(text@, old(self)@.width, old(self)@.height) {
                Ok(cells) => result is Ok && final(self)@.cells == cells,
                Err(error) => result == Err::<(), DecodeError>(error) && final(self)@.cells == old(
                    self,
                )@.cells,
            },
    {
        let len: usize = self.cells.len();
        assert(self.width * self.height == len);
        match decode(text, self.width, self.height) {
            Ok(cells) => {
                self.cells = cells;
                Ok(())
            },
            Err(error) => Err(error),
        }
    }

    /// Finishes a random fill from its outcome: where the random number source
    /// filled `bytes`, the grid is seeded from them; where it failed, the grid
    /// stays as it is and the failure is reported.
    pub fn seed_with(&mut self, filled: Result<(), getrandom::Error>, bytes: &[u8]) -> (result:
        Result<(), BuildError>)
        requires
            old(self).wf(),
            bytes@.len() == old(self)@.cells.len(),
        ensures
            final(self).wf(),
            final(self).size() == old(self).size(),
            final(self).spec_config() == old(self).spec_config(),
            filled is Ok ==> result is Ok && final(self)@.cells == cells_of_bytes(bytes@),
            filled is Err ==> result == Err::<(), BuildError>(BuildError::EntropyUnavailable)
                && final(self)@.cells == old(self)@.cells,
    {
        match filled {
            Ok(()) => {
                self.seed(bytes);
                Ok(())
            },
            Err(_) => Err(BuildError::EntropyUnavailable),
        }
    }

    /// Sizes the universe for a canvas and fills it at random. Where the random
    /// number source fails, the universe is sized and every cell is dead.
    pub fn build(&mut self, canvas_width: u32, canvas_height: u32) -> (result: Result<
        (),
        BuildError,
    >)
        requires
            buildable(old(self).spec_config(), canvas_width, canvas_height),
        ensures
            final(self).wf(),
            final(self).spec_config() == old(self).spec_config(),
            final(self).size() == resolved_size(
                old(self).spec_config().padding,
                old(self).spec_config().override_size,
                capacity_of(old(self).spec_config(), canvas_width, canvas_height),
            ),
            result is Err ==> result == Err::<(), BuildError>(BuildError::EntropyUnavailable)
                && final(self)@.all_dead(),
    {
        self.resize(canvas_width, canvas_height);
        let mut buffer: Vec<u8> = Vec::new();
        let mut i: usize = 0;
        while i < self.cells.len()
            invariant
                i <= self.cells@.len(),
                buffer@.len() == i,
            decreases self.cells@.len() - i,
        {
            buffer.push(0);
            i += 1;
        }
        let filled = fill_random(&mut buffer);
        self.seed_with(filled, buffer.as_slice())
    }

    /// Sizes the universe for a canvas and fills it from the input of its
    /// configuration: at random, or from the pattern text. Where the input fails,
    /// the universe is sized and every cell is dead.
    pub fn populate(&mut self, canvas_width: u32, canvas_height: u32) -> (result: Result<
        (),
        BuildError,
    >)
        requires
            buildable(old(self).spec_config(), canvas_width, canvas_height),
        ensures
            final(self).wf(),
            final(self).spec_config() == old(self).spec_config(),
            final(self).size() == resolved_size(
                old(self).spec_config().padding,
                old(self).spec_config().override_size,
                capacity_of(old(self).spec_config(), canvas_width, canvas_height),
            ),
            result is Err ==> final(self)@.all_dead(),
            match old(self).spec_config().input {
                InputView::Random => result is Err ==> result == Err::<(), BuildError>(
                    BuildError::EntropyUnavailable,
                ),
                InputView::RleString(text) => match decoded(
                    vstd::utf8::encode_utf8(text),
                    final(self)@.width,
                    final(self)@.height,
                ) {
                    Ok(cells) => result is Ok && final(self)@.cells == cells,
                    Err(error) => result == Err::<(), BuildError>(BuildError::Pattern(error)),
                },
            },
    {
        match self.config.get_input() {
            UniverseInput::Random => self.build(canvas_width, canvas_height),
            UniverseInput::RleString(text) => {
                self.resize(canvas_width, canvas_height);
                match self.load_pattern(text.as_str().as_bytes()) {
                    Ok(()) => Ok(()),
                    Err(error) => Err(BuildError::Pattern(error)),
                }
            },
        }
    }

    /// Check if the cell is within the visibility bounding box.
    pub fn is_visible(&self, row: u32, col: u32) -> (visible: bool)
        ensures
            visible == (self.size().visible_row_start_position <= row < self.size().visible_row_start_position
                + self.size().visible_rows && self.size().visible_column_start_position <= col
                < self.size().visible_column_start_position + self.size().visible_columns),
    {
        let row_lower: u64 = self.visible_row_start_position as u64;
        let row_upper: u64 = row_lower + self.visible_rows as u64;
        let col_lower: u64 = self.visible_column_start_position as u64;
        let col_upper: u64 = col_lower + self.visible_columns as u64;
        (row_lower <= row as u64 && (row as u64) < row_upper) && (col_lower <= col as u64 && (
        col as u64) < col_upper)
    }

    /// The position of a cell counted from the first visible row and column.
    pub fn translate_to_visible_row_col(&self, row: u32, col: u32) -> (position: (u32, u32))
        requires
            self.size().visible_row_start_position <= row,
            self.size().visible_column_start_position <= col,
        ensures
            position == (
                (row - self.size().visible_row_start_position) as u32,
                (col - self.size().visible_column_start_position) as u32,
            ),
    {
        (row - self.visible_row_start_position, col - self.visible_column_start_position)
    }

    /// Where the cell of a position stands in the cell buffer.
    pub fn get_index(&self, row: u32, column: u32) -> (index: usize)
        requires
            self.wf(),
            self@.in_bounds(row as int, column as int),
        ensures
            index == self@.index(row as int, column as int),
            index < self@.cells.len(),
    {
        let len: usize = self.cells.len();
        proof {
            lemma_index(self@, row as int, column as int);
            assert(0 <= row * self.width) by (nonlinear_arith);
            assert(row * self.width + column < len);
        }
        (row as usize) * (self.width as usize) + column as usize
    }

    /// What the neighbour `(delta_row, delta_col)` steps away adds to the count of
    /// living neighbours.
    pub fn neighbor(&self, row: u32, col: u32, delta_row: i8, delta_col: i8) -> (count: u8)
        requires
            self.wf(),
            self@.in_bounds(row as int, col as int),
            -1 <= delta_row <= 1,
            -1 <= delta_col <= 1,
        ensures
            count == self@.neighbor(row as int, col as int, delta_row as int, delta_col as int),
            count <= 1,
    {
        let edge = self.config.get_edge_rule();
        match (shift(edge, row, delta_row, self.height), shift(edge, col, delta_col, self.width)) {
            (Some(r), Some(c)) => {
                let idx = self.get_index(r, c);
                self.cells[idx].as_u8()
            },
            _ => 0,
        }
    }

    /// The number of living cells among the eight neighbours of a position,
    /// under the edge rule of the configuration.
    pub fn living_neighbor_count(&self, row: u32, col: u32) -> (count: u8)
        requires
            self.wf(),
            self@.in_bounds(row as int, col as int),
        ensures
            count == self@.live_neighbors(row as int, col as int),
            count <= 8,
    {
        let mut count: u8 = 0;
        count += self.neighbor(row, col, -1, -1);
        count += self.neighbor(row, col, -1, 0);
        count += self.neighbor(row, col, -1, 1);
        count += self.neighbor(row, col, 0, -1);
        count += self.neighbor(row, col, 0, 1);
        count += self.neighbor(row, col, 1, -1);
        count += self.neighbor(row, col, 1, 0);
        count += self.neighbor(row, col, 1, 1);
        count
    }

    /// Advances the universe by one generation. Every cell of the new generation
    /// is computed from the generation before it.
    pub fn tick(&mut self)
        requires
            old(self).wf(),
        ensures
            final(self).wf(),
            final(self)@ == old(self)@.step(),
            final(self).size() == old(self).size(),
            final(self).spec_config() == old(self).spec_config(),
    {
        let ghost grid = self@;
        let ghost w = self.width as int;
        let mut next: Vec<Cell> = Vec::new();
        let mut row: u32 = 0;
        while row < self.height
            invariant
                self.wf(),
                self@ == grid,
                self.size() == old(self).size(),
                self.spec_config() == old(self).spec_config(),
                w == self.width,
                row <= self.height,
                next@.len() == row * w,
                forall|i: int|
                    0 <= i < next@.len() ==> #[trigger] next@[i] == grid.next_cell(i / w, i % w),
            decreases self.height - row,
        {
            let mut col: u32 = 0;
            while col < self.width
                invariant
                    self.wf(),
                    self@ == grid,
                    self.size() == old(self).size(),
                    self.spec_config() == old(self).spec_config(),
                    w == self.width,
                    row < self.height,
                    col <= self.width,
                    next@.len() == row * w + col,
                    forall|i: int|
                        0 <= i < next@.len() ==> #[trigger] next@[i] == grid.next_cell(
                            i / w,
                            i % w,
                        ),
                decreases self.width - col,
            {
                let idx = self.get_index(row, col);
                let cell = self.cells[idx];
                let live_neighbors = self.living_neighbor_count(row, col);
                let next_cell = match cell {
                    Cell::Alive => if live_neighbors == 2 || live_neighbors == 3 {
                        Cell::Alive
                    } else {
                        Cell::Dead
                    },
                    Cell::Dead => if live_neighbors == 3 {
                        Cell::Alive
                    } else {
                        Cell::Dead
                    },
                };
                proof {
                    lemma_index(grid, row as int, col as int);
                    assert(next_cell == grid.next_cell(row as int, col as int));
                }
                next.push(next_cell);
                col += 1;
            }
            proof {
                assert((row + 1) * w == row * w + w) by (nonlinear_arith);
            }
            row += 1;
        }
        proof {
            assert(row * w == grid.width * grid.height) by (nonlinear_arith)
                requires
                    row == grid.height,
                    w == grid.width,
            ;
            assert(next@ =~= grid.step().cells);
        }
        self.cells = next;
    }

    /// The text of the grid: for each row one glyph for each cell, then a line feed.
    pub fn render(&self) -> (text: String)
        requires
            self.wf(),
        ensures
            text@ == rendered(self@),
    {
        let mut text = String::new();
        let mut row: u32 = 0;
        proof {
            reveal_strlit("\u{25fb}");
            reveal_strlit("\u{25fc}");
            reveal_strlit("\n");
        }
        while row < self.height
            invariant
                self.wf(),
                row <= self.height,
                text@ == rendered_rows(self@, row as nat),
                "\u{25fb}"@ =~= seq![DEAD_GLYPH],
                "\u{25fc}"@ =~= seq![ALIVE_GLYPH],
                "\n"@ =~= seq!['\n'],
            decreases self.height - row,
        {
            let ghost before = text@;
            let mut col: u32 = 0;
            while col < self.width
                invariant
                    self.wf(),
                    row < self.height,
                    col <= self.width,
                    text@.len() == before.len() + col,
                    text@.take(before.len() as int) == before,
                    forall|c: int|
                        0 <= c < col ==> text@[before.len() + c] == glyph_of(
                            self@.cell(row as int, c),
                        ),
                    "\u{25fb}"@ =~= seq![DEAD_GLYPH],
                    "\u{25fc}"@ =~= seq![ALIVE_GLYPH],
                decreases self.width - col,
            {
                let idx = self.get_index(row, col);
                match self.cells[idx] {
                    Cell::Dead => text.append("\u{25fb}"),
                    Cell::Alive => text.append("\u{25fc}"),
                }
                assert(text@.take(before.len() as int) =~= before);
                col += 1;
            }
            text.append("\n");
            proof {
                let grid = self@;
                assert(text@ =~= before + Seq::new(
                    grid.width,
                    |c: int| glyph_of(grid.cell(row + 1 - 1, c)),
                ) + seq!['\n']) by {
                    assert(text@.take(before.len() as int) =~= before);
                }
            }
            row += 1;
        }
        text
    }

    /// The width of the grid, in cells.
    pub fn width(&self) -> (width: u32)
        ensures
            width == self@.width,
            width == self.size().width,
    {
        self.width
    }

    /// The height of the grid, in cells.
    pub fn height(&self) -> (height: u32)
        ensures
            height == self@.height,
            height == self.size().height,
    {
        self.height
    }

    /// The cells of the grid, row by row.
    pub fn cells(&self) -> (cells: &[Cell])
        ensures
            cells@ == self@.cells,
    {
        self.cells.as_slice()
    }

    /// The configuration of the universe.
    pub fn config(&self) -> (config: &UniverseConfig)
        ensures
            config@ == self.spec_config(),
    {
        &self.config
    }

    /// The size of the grid and of its visible window.
    pub fn grid_size(&self) -> (size: GridSize)
        ensures
            size == self.size(),
    {
        GridSize {
            width: self.width,
            height: self.height,
            visible_columns: self.visible_columns,
            visible_rows: self.visible_rows,
            visible_row_start_position: self.visible_row_start_position,
            visible_column_start_position: self.visible_column_start_position,
        }
    }
}

} // verus!
