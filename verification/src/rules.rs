//! The transition rules: where a cell wants to go, who wins a contested
//! destination, and what each cell becomes in the next generation.
//!
//! Every function here reads the current generation only. The next state of
//! a cell is a function of that generation and the rule set, never of what
//! other cells have already decided during the same step.

use vstd::prelude::*;
use crate::cell::Cell;
use crate::grid::{Grid, GridModel};

verus! {

/// The rule table of a simulation.
///
/// Sand always falls straight down into an empty cell. With `diagonal` set,
/// sand that is blocked below may also slide to the lower-left and, failing
/// that, to the lower-right.
#[derive(Clone, Copy, PartialEq, Eq, Debug, Structural)]
pub struct RuleSet {
    pub diagonal: bool,
}

impl GridModel {
    /// Where the cell at `(x, y)` wants to move, judged from this generation
    /// alone: straight down first, then lower-left, then lower-right. Only
    /// sand moves, and only into an empty cell.
    pub open spec fn target(self, rules: RuleSet, x: int, y: int) -> Option<(int, int)> {
        if self.read(x, y) != Cell::Sand {
            None
        } else if self.read(x, y + 1) == Cell::Empty {
            Some((x, y + 1))
        } else if rules.diagonal && self.read(x - 1, y + 1) == Cell::Empty {
            Some((x - 1, y + 1))
        } else if rules.diagonal && self.read(x + 1, y + 1) == Cell::Empty {
            Some((x + 1, y + 1))
        } else {
            None
        }
    }

    /// Which source cell is granted the destination `(x, y)`. Of the cells
    /// that want to move there, the one directly above wins; failing that the
    /// upper-left neighbour; failing that the upper-right neighbour.
    pub open spec fn winner(self, rules: RuleSet, x: int, y: int) -> Option<(int, int)> {
        if self.target(rules, x, y - 1) == Some((x, y)) {
            Some((x, y - 1))
        } else if self.target(rules, x - 1, y - 1) == Some((x, y)) {
            Some((x - 1, y - 1))
        } else if self.target(rules, x + 1, y - 1) == Some((x, y)) {
            Some((x + 1, y - 1))
        } else {
            None
        }
    }

    /// Whether the cell at `(x, y)` leaves its position in this step: it has
    /// a target and is the winner of that target.
    pub open spec fn moves(self, rules: RuleSet, x: int, y: int) -> bool {
        match self.target(rules, x, y) {
            Some(t) => self.winner(rules, t.0, t.1) == Some((x, y)),
            None => false,
        }
    }

    /// What position `(x, y)` holds in the next generation. A cell that
    /// moves leaves `Empty` behind; an empty cell takes the value of the
    /// winner among its claimants; everything else stays as it is.
    pub open spec fn next_cell(self, rules: RuleSet, x: int, y: int) -> Cell {
        if self.moves(rules, x, y) {
            Cell::Empty
        } else if self.read(x, y) == Cell::Empty {
            match self.winner(rules, x, y) {
                Some(source) => self.read(source.0, source.1),
                None => Cell::Empty,
            }
        } else {
            self.read(x, y)
        }
    }

    /// The next generation: the same rectangle, every position holding its
    /// `next_cell`.
    pub open spec fn step(self, rules: RuleSet) -> GridModel {
        GridModel {
            width: self.width,
            height: self.height,
            cells: Seq::new(
                self.cells.len(),
                |i: int| self.next_cell(rules, self.column(i), self.row(i)),
            ),
        }
    }

    /// No cell of this generation can move.
    pub open spec fn settled(self, rules: RuleSet) -> bool {
        forall|x: int, y: int| #[trigger] self.target(rules, x, y) is None
    }
}

/// The mathematical position that a pair of machine coordinates stands for.
spec fn position(p: Option<(i64, i64)>) -> Option<(int, int)> {
    match p {
        Some(p) => Some((p.0 as int, p.1 as int)),
        None => None,
    }
}

/// The mathematical position that a pair of grid coordinates stands for.
pub open spec fn grid_position(p: Option<(u32, u32)>) -> Option<(int, int)> {
    match p {
        Some(p) => Some((p.0 as int, p.1 as int)),
        None => None,
    }
}

impl RuleSet {
    fn target_at(&self, grid: &Grid, x: i64, y: i64) -> (t: Option<(i64, i64)>)
        requires
            grid@.wf(),
            -4 <= x <= u32::MAX + 4,
            -4 <= y <= u32::MAX + 4,
        ensures
            position(t) == grid@.target(*self, x as int, y as int),
    {
        if !matches!(grid.read(x, y), Cell::Sand) {
            None
        } else if matches!(grid.read(x, y + 1), Cell::Empty) {
            Some((x, y + 1))
        } else if self.diagonal && matches!(grid.read(x - 1, y + 1), Cell::Empty) {
            Some((x - 1, y + 1))
        } else if self.diagonal && matches!(grid.read(x + 1, y + 1), Cell::Empty) {
            Some((x + 1, y + 1))
        } else {
            None
        }
    }

    fn aims_at(&self, grid: &Grid, sx: i64, sy: i64, x: i64, y: i64) -> (aims: bool)
        requires
            grid@.wf(),
            -4 <= sx <= u32::MAX + 4,
            -4 <= sy <= u32::MAX + 4,
        ensures
            aims == (grid@.target(*self, sx as int, sy as int) == Some((x as int, y as int))),
    {
        match self.target_at(grid, sx, sy) {
            Some((tx, ty)) => tx == x && ty == y,
            None => false,
        }
    }

    fn winner_at(&self, grid: &Grid, x: i64, y: i64) -> (w: Option<(i64, i64)>)
        requires
            grid@.wf(),
            -2 <= x <= u32::MAX + 2,
            -2 <= y <= u32::MAX + 2,
        ensures
            position(w) == grid@.winner(*self, x as int, y as int),
    {
        if self.aims_at(grid, x, y - 1, x, y) {
            Some((x, y - 1))
        } else if self.aims_at(grid, x - 1, y - 1, x, y) {
            Some((x - 1, y - 1))
        } else if self.aims_at(grid, x + 1, y - 1, x, y) {
            Some((x + 1, y - 1))
        } else {
            None
        }
    }

    /// Where the cell at `(x, y)` wants to move, if anywhere.
    pub fn target(&self, grid: &Grid, x: u32, y: u32) -> (t: Option<(u32, u32)>)
        requires
            grid@.wf(),
        ensures
            grid_position(t) == grid@.target(*self, x as int, y as int),
    {
        match self.target_at(grid, x as i64, y as i64) {
            Some((tx, ty)) => {
                proof {
                    grid.lemma_dimensions_fit();
                    assert(grid@.read(tx as int, ty as int) == Cell::Empty);
                }
                Some((tx as u32, ty as u32))
            },
            None => None,
        }
    }

    /// Which source cell is granted the destination `(x, y)`, if any claims
    /// it.
    pub fn winner(&self, grid: &Grid, x: u32, y: u32) -> (w: Option<(u32, u32)>)
        requires
            grid@.wf(),
        ensures
            grid_position(w) == grid@.winner(*self, x as int, y as int),
    {
        match self.winner_at(grid, x as i64, y as i64) {
            Some((sx, sy)) => {
                proof {
                    grid.lemma_dimensions_fit();
                    assert(grid@.read(sx as int, sy as int) == Cell::Sand);
                }
                Some((sx as u32, sy as u32))
            },
            None => None,
        }
    }

    /// What position `(x, y)` holds in the next generation.
    pub fn next_cell(&self, grid: &Grid, x: u32, y: u32) -> (cell: Cell)
        requires
            grid@.wf(),
        ensures
            cell == grid@.next_cell(*self, x as int, y as int),
    {
        let here = grid.read(x as i64, y as i64);
        match here {
            Cell::Sand => {
                match self.target_at(grid, x as i64, y as i64) {
                    Some((tx, ty)) => {
                        if self.is_winner_of(grid, tx, ty, x as i64, y as i64) {
                            Cell::Empty
                        } else {
                            Cell::Sand
                        }
                    },
                    None => Cell::Sand,
                }
            },
            Cell::Empty => {
                match self.winner_at(grid, x as i64, y as i64) {
                    Some((sx, sy)) => grid.read(sx, sy),
                    None => Cell::Empty,
                }
            },
            Cell::Solid => Cell::Solid,
        }
    }

    fn is_winner_of(&self, grid: &Grid, tx: i64, ty: i64, x: i64, y: i64) -> (won: bool)
        requires
            grid@.wf(),
            -2 <= tx <= u32::MAX + 2,
            -2 <= ty <= u32::MAX + 2,
        ensures
            won == (grid@.winner(*self, tx as int, ty as int) == Some((x as int, y as int))),
    {
        match self.winner_at(grid, tx, ty) {
            Some((sx, sy)) => sx == x && sy == y,
            None => false,
        }
    }
}

} // verus!
