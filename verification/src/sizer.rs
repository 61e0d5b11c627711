use vstd::prelude::*;

verus! {

/// A count of rows and columns.
#[derive(Clone, Copy, Debug, PartialEq, Eq, Structural)]
pub struct RowColCount {
    pub rows: u32,
    pub cols: u32,
}

/// The size of a grid and the window of it that is shown.
#[derive(Clone, Copy, Debug, PartialEq, Eq, Structural)]
pub struct GridSize {
    pub width: u32,
    pub height: u32,
    pub visible_columns: u32,
    pub visible_rows: u32,
    pub visible_row_start_position: u32,
    pub visible_column_start_position: u32,
}

/// How many cells of edge `cell`, divided by lines of width `border`, are shown
/// along `extent` pixels: only whole cells where cells may not be cut off at the
/// edge (`whole_only`), otherwise a last partial cell too.
pub open spec fn cells_across(extent: nat, border: nat, cell: nat, whole_only: bool) -> nat
    recommends
        cell + border > 0,
{
    if whole_only {
        (extent + border) / (cell + border)
    } else {
        ((extent + border + (cell + border - 1)) / (cell + border) as int) as nat
    }
}

/// The grid that a configuration and a display capacity resolve to. With an
/// explicit size the grid is that size with the padding on every side, and the
/// window is the capacity, but no larger than the grid. Without one the window is
/// the capacity and the grid is the window with the padding on every side. The
/// window lies in the middle of the grid.
pub open spec fn resolved_size(
    padding: u32,
    override_size: Option<(u32, u32)>,
    capacity: RowColCount,
) -> GridSize
    recommends
        size_fits(padding, override_size, capacity),
{
    let (base_width, base_height) = match override_size {
        Some(size) => size,
        None => (capacity.cols, capacity.rows),
    };
    let width = base_width + 2 * padding;
    let height = base_height + 2 * padding;
    let columns = if width < capacity.cols {
        width
    } else {
        capacity.cols as int
    };
    let rows = if height < capacity.rows {
        height
    } else {
        capacity.rows as int
    };
    GridSize {
        width: width as u32,
        height: height as u32,
        visible_columns: columns as u32,
        visible_rows: rows as u32,
        visible_row_start_position: ((height - rows) / 2) as u32,
        visible_column_start_position: ((width - columns) / 2) as u32,
    }
}

/// The resolved width and height fit in 32 bits.
pub open spec fn size_fits(
    padding: u32,
    override_size: Option<(u32, u32)>,
    capacity: RowColCount,
) -> bool {
    let (base_width, base_height) = match override_size {
        Some(size) => size,
        None => (capacity.cols, capacity.rows),
    };
    base_width + 2 * padding <= u32::MAX && base_height + 2 * padding <= u32::MAX
}

/// Counts the cells that are shown along `extent` pixels.
pub fn count_across(extent: u32, border: u32, cell: u32, whole_only: bool) -> (count: u32)
    requires
        cell + border > 0,
        extent + border <= u32::MAX,
    ensures
        count == cells_across(extent as nat, border as nat, cell as nat, whole_only),
{
    let span: u64 = extent as u64 + border as u64;
    let pitch: u64 = cell as u64 + border as u64;
    let count: u64 = if whole_only {
        span / pitch
    } else {
        (span + (pitch - 1)) / pitch
    };
    proof {
        let s = span as int;
        let p = pitch as int;
        assert((s + (p - 1)) / p <= s) by (nonlinear_arith)
            requires
                s >= 0,
                p >= 1,
        ;
        assert(s / p <= s) by (nonlinear_arith)
            requires
                s >= 0,
                p >= 1,
        ;
    }
    count as u32
}

/// Resolves the size of the grid and its window.
pub fn resolve_size(padding: u32, override_size: Option<(u32, u32)>, capacity: RowColCount) -> (size:
    GridSize)
    requires
        size_fits(padding, override_size, capacity),
    ensures
        size == resolved_size(padding, override_size, capacity),
        size.visible_columns <= size.width,
        size.visible_rows <= size.height,
        size.visible_column_start_position + size.visible_columns <= size.width,
        size.visible_row_start_position + size.visible_rows <= size.height,
        match override_size {
            Some((width, height)) => size.width == width + 2 * padding && size.height == height
                + 2 * padding,
            None => size.width == capacity.cols + 2 * padding && size.height == capacity.rows + 2
                * padding,
        },
{
    let (base_width, base_height) = match override_size {
        Some(size) => size,
        None => (capacity.cols, capacity.rows),
    };
    let width: u32 = base_width + 2 * padding;
    let height: u32 = base_height + 2 * padding;
    let visible_columns: u32 = if width < capacity.cols {
        width
    } else {
        capacity.cols
    };
    let visible_rows: u32 = if height < capacity.rows {
        height
    } else {
        capacity.rows
    };
    GridSize {
        width,
        height,
        visible_columns,
        visible_rows,
        visible_row_start_position: (height - visible_rows) / 2,
        visible_column_start_position: (width - visible_columns) / 2,
    }
}

} // verus!
