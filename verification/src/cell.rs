//! The atomic unit of grid state.

use vstd::prelude::*;

verus! {

/// What occupies one grid position.
///
/// Cells are plain values: they have no identity beyond the position they
/// are stored at, and a move copies the value to its new position.
#[derive(Clone, Copy, PartialEq, Eq, Debug, Structural)]
pub enum Cell {
    /// Nothing; granular cells may move into it.
    Empty,
    /// A granular solid that falls.
    Sand,
    /// An immovable solid. It is also what every position outside the grid
    /// reads as, so the world's edge behaves like a wall.
    Solid,
}

impl Cell {
    /// The integer code under which the cell is stored in an uploaded buffer.
    pub open spec fn spec_code(self) -> u32 {
        match self {
            Cell::Empty => 0,
            Cell::Sand => 1,
            Cell::Solid => 2,
        }
    }

    /// The cell that a code stands for, if it stands for any.
    pub open spec fn spec_from_code(code: u32) -> Option<Cell> {
        if code == 0 {
            Some(Cell::Empty)
        } else if code == 1 {
            Some(Cell::Sand)
        } else if code == 2 {
            Some(Cell::Solid)
        } else {
            None
        }
    }

    #[verifier::when_used_as_spec(spec_code)]
    pub fn code(self) -> (code: u32)
        ensures
            code == self.spec_code(),
    {
        match self {
            Cell::Empty => 0,
            Cell::Sand => 1,
            Cell::Solid => 2,
        }
    }

    #[verifier::when_used_as_spec(spec_from_code)]
    pub fn from_code(code: u32) -> (cell: Option<Cell>)
        ensures
            cell == Cell::spec_from_code(code),
    {
        if code == 0 {
            Some(Cell::Empty)
        } else if code == 1 {
            Some(Cell::Sand)
        } else if code == 2 {
            Some(Cell::Solid)
        } else {
            None
        }
    }
}

/// Decoding undoes encoding, and no two cells share a code.
pub proof fn lemma_code_round_trip(cell: Cell)
    ensures
        Cell::spec_from_code(cell.spec_code()) == Some(cell),
{
}

} // verus!
