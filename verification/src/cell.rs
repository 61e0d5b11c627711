use vstd::prelude::*;

verus! {

/// The state of one position of the grid.
#[derive(Clone, Copy, Debug, PartialEq, Eq, Structural)]
pub enum Cell {
    Dead,
    Alive,
}

impl Cell {
    /// What the cell adds to a count of living cells: 1 if alive, 0 if dead.
    pub open spec fn weight(self) -> nat {
        match self {
            Cell::Dead => 0,
            Cell::Alive => 1,
        }
    }

    /// The cell as a number: 0 for a dead cell, 1 for a living one.
    pub fn as_u8(self) -> (n: u8)
        ensures
            n as nat == self.weight(),
    {
        match self {
            Cell::Dead => 0,
            Cell::Alive => 1,
        }
    }
}

} // verus!
