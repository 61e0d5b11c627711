use vstd::prelude::*;
use crate::cell::Cell;

verus! {

/// The error of the system's random number source.
#[verifier::external_type_specification]
#[verifier::external_body]
pub struct ExEntropyError(getrandom::Error);

/// Calls `getrandom::getrandom` on the buffer, which overwrites its bytes with
/// random ones or fails. Nothing is claimed of the bytes, nor of when the call
/// fails: only that the buffer keeps its length.
#[verifier::external_body]
pub(crate) fn fill_random(buffer: &mut Vec<u8>) -> (filled: Result<(), getrandom::Error>)
    ensures
        final(buffer)@.len() == old(buffer)@.len(),
{
    getrandom::getrandom(buffer.as_mut_slice())
}

/// The cell that a random byte stands for: dead for an even byte, alive for an odd one.
pub open spec fn cell_of_byte(byte: u8) -> Cell {
    if byte % 2 == 0 {
        Cell::Dead
    } else {
        Cell::Alive
    }
}

/// The cells that a sequence of random bytes stands for, one for each byte.
pub open spec fn cells_of_bytes(bytes: Seq<u8>) -> Seq<Cell> {
    Seq::new(bytes.len(), |i: int| cell_of_byte(bytes[i]))
}

/// Turns one random byte into a cell.
pub fn cell_from_byte(byte: u8) -> (cell: Cell)
    ensures
        cell == cell_of_byte(byte),
{
    if byte % 2 == 0 {
        Cell::Dead
    } else {
        Cell::Alive
    }
}

/// Turns random bytes into cells, one for each byte.
pub fn cells_from_bytes(bytes: &[u8]) -> (cells: Vec<Cell>)
    ensures
        cells@ == cells_of_bytes(bytes@),
{
    let mut cells: Vec<Cell> = Vec::new();
    let mut i: usize = 0;
    while i < bytes.len()
        invariant
            i <= bytes@.len(),
            cells@.len() == i,
            forall|k: int| 0 <= k < i ==> cells@[k] == cell_of_byte(bytes@[k]),
        decreases bytes@.len() - i,
    {
        cells.push(cell_from_byte(bytes[i]));
        i += 1;
    }
    assert(cells@ =~= cells_of_bytes(bytes@));
    cells
}

} // verus!
