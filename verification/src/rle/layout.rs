use vstd::prelude::*;
use vstd::slice::slice_subrange;
use crate::cell::Cell;
use crate::rle::elements::RleElement;

verus! {

/// `count` cells of one state.
pub open spec fn run_of(cell: Cell, count: nat) -> Seq<Cell> {
    Seq::new(count, |i: int| cell)
}

/// The cells that one element writes into its line: a run for `Dead` and `Alive`,
/// nothing for a line break or the terminator.
pub open spec fn cells_of(element: RleElement) -> Seq<Cell> {
    match element {
        RleElement::Dead(count) => run_of(Cell::Dead, count as nat),
        RleElement::Alive(count) => run_of(Cell::Alive, count as nat),
        RleElement::NewLine(_) => Seq::empty(),
        RleElement::End => Seq::empty(),
    }
}

/// The cells that a sequence of elements writes, one run behind the other.
pub open spec fn expand(elements: Seq<RleElement>) -> Seq<Cell>
    decreases elements.len(),
{
    if elements.len() == 0 {
        Seq::empty()
    } else {
        expand(elements.drop_last()) + cells_of(elements.last())
    }
}

/// The first `limit` cells of `cells`, or all of them where there are fewer.
pub open spec fn clip(cells: Seq<Cell>, limit: nat) -> Seq<Cell> {
    if cells.len() > limit {
        cells.take(limit as int)
    } else {
        cells
    }
}

/// `cells` brought to exactly `len` cells: cut behind the first `len`, or filled up
/// with dead cells on the right.
pub open spec fn fit(cells: Seq<Cell>, len: nat) -> Seq<Cell> {
    clip(cells, len) + run_of(Cell::Dead, (len - clip(cells, len).len()) as nat)
}

/// An element that ends a line.
pub open spec fn is_terminator(element: RleElement) -> bool {
    element is NewLine || element is End
}

/// The blank rows that a line break of `count` rows leaves behind the row it ends.
pub open spec fn blank_rows(element: RleElement) -> nat {
    match element {
        RleElement::NewLine(count) => if count > 1 {
            (count - 1) as nat
        } else {
            0
        },
        _ => 0,
    }
}

/// The row that the elements of one line make, `width` cells wide.
pub open spec fn row_of(line: Seq<RleElement>, width: nat) -> Seq<Cell> {
    fit(expand(line), width)
}

/// The cells that `elements[from..]` lay out in rows of `width`, where the line
/// that `from` lies in began at `start`. Each terminator closes a row and a line
/// break of more than one row leaves blank rows behind it; elements behind the last
/// terminator make a last row.
pub open spec fn layout_from(elements: Seq<RleElement>, from: int, width: nat, start: int) -> Seq<
    Cell,
>
    decreases elements.len() - from,
{
    if from < 0 || from >= elements.len() {
        if start < from {
            row_of(elements.subrange(start, elements.len() as int), width)
        } else {
            Seq::empty()
        }
    } else if is_terminator(elements[from]) {
        row_of(elements.subrange(start, from), width) + run_of(
            Cell::Dead,
            blank_rows(elements[from]) * width,
        ) + layout_from(elements, from + 1, width, from + 1)
    } else {
        layout_from(elements, from + 1, width, start)
    }
}

/// The cells that a sequence of elements lays out in rows of `width`.
pub open spec fn layout(elements: Seq<RleElement>, width: nat) -> Seq<Cell> {
    layout_from(elements, 0, width, 0)
}

/// Clipping before more cells are appended changes nothing behind the clip.
pub proof fn lemma_clip_append(front: Seq<Cell>, back: Seq<Cell>, limit: nat)
    ensures
        clip(clip(front, limit) + back, limit) == clip(front + back, limit),
{
    assert(clip(clip(front, limit) + back, limit) =~= clip(front + back, limit));
}

/// Fitting cuts or fills: the result has exactly `len` cells; of a sequence that
/// is too long it is the leftmost `len` cells, and a sequence that is too short
/// stays as it is and is followed by dead cells only.
pub proof fn lemma_fit(cells: Seq<Cell>, len: nat)
    ensures
        fit(cells, len).len() == len,
        cells.len() >= len ==> fit(cells, len) == cells.take(len as int),
        cells.len() <= len ==> fit(cells, len) == cells + run_of(
            Cell::Dead,
            (len - cells.len()) as nat,
        ),
        forall|i: int| 0 <= i < len && i < cells.len() ==> fit(cells, len)[i] == cells[i],
        forall|i: int| cells.len() <= i < len ==> fit(cells, len)[i] == Cell::Dead,
{
    if cells.len() >= len {
        assert(fit(cells, len) =~= cells.take(len as int));
    } else {
        assert(fit(cells, len) =~= cells + run_of(Cell::Dead, (len - cells.len()) as nat));
    }
}

/// Appends `count` cells of one state, stopping where `out` holds `limit` cells.
pub fn push_run(out: &mut Vec<Cell>, cell: Cell, count: u64, limit: usize)
    requires
        old(out)@.len() <= limit,
    ensures
        final(out)@ == clip(old(out)@ + run_of(cell, count as nat), limit as nat),
        final(out)@.len() <= limit,
{
    let mut pushed: u64 = 0;
    proof {
        assert(out@ =~= old(out)@ + run_of(cell, 0));
    }
    while pushed < count && out.len() < limit
        invariant
            pushed <= count,
            out@.len() <= limit,
            out@ == old(out)@ + run_of(cell, pushed as nat),
        decreases count - pushed,
    {
        out.push(cell);
        pushed += 1;
        proof {
            assert(out@ =~= old(out)@ + run_of(cell, pushed as nat));
        }
    }
    proof {
        assert(out@ =~= clip(old(out)@ + run_of(cell, count as nat), limit as nat));
    }
}

/// Appends the cells of `cells`, stopping where `out` holds `limit` cells.
pub fn push_cells(out: &mut Vec<Cell>, cells: &[Cell], limit: usize)
    requires
        old(out)@.len() <= limit,
    ensures
        final(out)@ == clip(old(out)@ + cells@, limit as nat),
        final(out)@.len() <= limit,
{
    let mut i: usize = 0;
    proof {
        assert(out@ =~= old(out)@ + cells@.take(0));
    }
    while i < cells.len() && out.len() < limit
        invariant
            i <= cells@.len(),
            out@.len() <= limit,
            out@ == old(out)@ + cells@.take(i as int),
        decreases cells@.len() - i,
    {
        out.push(cells[i]);
        i += 1;
        proof {
            assert(out@ =~= old(out)@ + cells@.take(i as int));
        }
    }
    proof {
        assert(out@ =~= clip(old(out)@ + cells@, limit as nat));
    }
}

/// Expands the elements of one line and brings the row to exactly `width` cells:
/// a longer line keeps its leftmost `width` cells, a shorter one is filled up with
/// dead cells on the right.
pub fn construct_line(line: &[RleElement], width: u32) -> (row: Vec<Cell>)
    ensures
        row@ == row_of(line@, width as nat),
        row@.len() == width,
{
    let limit: usize = width as usize;
    let mut row: Vec<Cell> = Vec::new();
    let mut i: usize = 0;
    proof {
        assert(line@.take(0) =~= Seq::<RleElement>::empty());
    }
    while i < line.len()
        invariant
            i <= line@.len(),
            limit == width,
            row@.len() <= limit,
            row@ == clip(expand(line@.take(i as int)), limit as nat),
        decreases line@.len() - i,
    {
        proof {
            let next = line@.take(i + 1);
            assert(next.drop_last() =~= line@.take(i as int));
            assert(next.last() == line@[i as int]);
            lemma_clip_append(expand(line@.take(i as int)), cells_of(line@[i as int]), limit as nat);
        }
        match line[i] {
            RleElement::Dead(count) => {
                push_run(&mut row, Cell::Dead, count as u64, limit);
            },
            RleElement::Alive(count) => {
                push_run(&mut row, Cell::Alive, count as u64, limit);
            },
            _ => {
                assert(row@ + Seq::<Cell>::empty() =~= row@);
            },
        }
        i += 1;
    }
    proof {
        assert(line@.take(i as int) =~= line@);
    }
    let missing: u64 = (limit - row.len()) as u64;
    let ghost clipped = row@;
    push_run(&mut row, Cell::Dead, missing, limit);
    proof {
        assert(row@ =~= clipped + run_of(Cell::Dead, missing as nat));
    }
    row
}

/// Lays the elements out in rows of `width` cells and keeps the first `limit` cells.
pub fn lay_out(elements: &[RleElement], width: u32, limit: usize) -> (cells: Vec<Cell>)
    ensures
        cells@ == clip(layout(elements@, width as nat), limit as nat),
{
    let mut out: Vec<Cell> = Vec::new();
    let ghost mut full: Seq<Cell> = Seq::empty();
    let mut start: usize = 0;
    let mut i: usize = 0;
    while i < elements.len()
        invariant
            start <= i <= elements@.len(),
            out@.len() <= limit,
            out@ == clip(full, limit as nat),
            layout(elements@, width as nat) == full + layout_from(
                elements@,
                i as int,
                width as nat,
                start as int,
            ),
        decreases elements@.len() - i,
    {
        let blank: u64 = match elements[i] {
            RleElement::NewLine(count) => if count > 1 {
                (count - 1) as u64
            } else {
                0
            },
            _ => 0,
        };
        let closes: bool = match elements[i] {
            RleElement::NewLine(_) => true,
            RleElement::End => true,
            _ => false,
        };
        if closes {
            let row = construct_line(slice_subrange(elements, start, i), width);
            let ghost gap = run_of(Cell::Dead, blank_rows(elements@[i as int]) * (width as nat));
            proof {
                lemma_clip_append(full, row@, limit as nat);
                lemma_clip_append(full + row@, gap, limit as nat);
                assert(blank * width == blank_rows(elements@[i as int]) * (width as nat));
                assert(blank * width <= u64::MAX) by (nonlinear_arith)
                    requires
                        blank <= u32::MAX,
                        width <= u32::MAX,
                ;
                assert(full + (row@ + gap + layout_from(
                    elements@,
                    i + 1,
                    width as nat,
                    i + 1,
                )) =~= (full + row@ + gap) + layout_from(elements@, i + 1, width as nat, i + 1));
            }
            push_cells(&mut out, row.as_slice(), limit);
            push_run(&mut out, Cell::Dead, blank * (width as u64), limit);
            proof {
                full = full + row@ + gap;
            }
            start = i + 1;
        }
        i += 1;
    }
    if start < i {
        let row = construct_line(slice_subrange(elements, start, i), width);
        proof {
            lemma_clip_append(full, row@, limit as nat);
        }
        push_cells(&mut out, row.as_slice(), limit);
    } else {
        proof {
            assert(full + Seq::<Cell>::empty() =~= full);
        }
    }
    out
}

} // verus!
