//! The two-state cell a grid is made of.

use vstd::prelude::*;

verus! {

/// One square of the grid: either dead or alive, compared by value.
#[derive(Clone, Copy, Debug, PartialEq, Eq, Structural)]
pub enum Cell {
    Dead,
    Alive,
}

/// The opposite state of `c`.
pub open spec fn flip(c: Cell) -> Cell {
    match c {
        Cell::Alive => Cell::Dead,
        Cell::Dead => Cell::Alive,
    }
}

/// The numeric weight of a cell when counting live neighbors: one if alive,
/// zero if dead.
pub open spec fn live_weight(c: Cell) -> int {
    if c is Alive {
        1
    } else {
        0
    }
}

impl Cell {
    /// Flips the cell in place between `Alive` and `Dead`.
    pub fn toggle(&mut self)
        ensures
            *final(self) == flip(*old(self)),
    {
        *self = match *self {
            Cell::Alive => Cell::Dead,
            Cell::Dead => Cell::Alive,
        };
    }
}

} // verus!
