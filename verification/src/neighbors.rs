//! Toroidal neighbor counting.
//!
//! Every cell has exactly eight neighbor slots: for each of the 3x3 offsets
//! excluding the center, the neighbor's coordinate is taken modulo the grid's
//! height and width. On small grids several slots may land on the same cell;
//! each slot still contributes its own term, exactly as the offset walk does.

use crate::cell::Cell;
use crate::cell::live_weight;
use crate::grid::Universe;
use vstd::prelude::*;

verus! {

impl Universe {
    /// The contribution of one neighbor slot: the live weight of the cell at
    /// `(r + dr, c + dc)`, wrapped around both edges.
    pub open spec fn neighbor_term(self, r: int, c: int, dr: int, dc: int) -> int {
        live_weight(
            self.cell_at((r + dr) % (self.height as int), (c + dc) % (self.width as int)),
        )
    }

    /// The number of live neighbors of `(r, c)`: the sum over the eight
    /// offsets `{height - 1, 0, 1} x {width - 1, 0, 1}` minus the center,
    /// where `height - 1` and `width - 1` act as `-1` under the wraparound.
    pub open spec fn spec_neighbor_count(self, r: int, c: int) -> int {
        let up = self.height as int - 1;
        let left = self.width as int - 1;
        self.neighbor_term(r, c, up, left) + self.neighbor_term(r, c, up, 0)
            + self.neighbor_term(r, c, up, 1) + self.neighbor_term(r, c, 0, left)
            + self.neighbor_term(r, c, 0, 1) + self.neighbor_term(r, c, 1, left)
            + self.neighbor_term(r, c, 1, 0) + self.neighbor_term(r, c, 1, 1)
    }

    /// Reads one neighbor slot: whether the cell at `(row + dr, col + dc)`,
    /// wrapped around both edges, is alive.
    fn neighbor_live(&self, row: u32, column: u32, dr: u32, dc: u32) -> (n: u8)
        requires
            self.wf(),
            self.height >= 1,
            self.width >= 1,
        ensures
            n == self.neighbor_term(row as int, column as int, dr as int, dc as int),
            n <= 1,
    {
        let nr = ((row as u64 + dr as u64) % (self.height as u64)) as u32;
        let nc = ((column as u64 + dc as u64) % (self.width as u64)) as u32;
        let idx = self.get_index(nr, nc);
        match self.cells[idx] {
            Cell::Alive => 1,
            Cell::Dead => 0,
        }
    }

    /// Counts the live neighbors of `(row, column)`, a value in `[0, 8]`.
    /// The grid must not be degenerate: neighbor counting is never invoked
    /// when either dimension is zero.
    pub fn live_neighbor_count(&self, row: u32, column: u32) -> (count: u8)
        requires
            self.wf(),
            self.height >= 1,
            self.width >= 1,
        ensures
            count == self.spec_neighbor_count(row as int, column as int),
            count <= 8,
    {
        let up = self.height - 1;
        let left = self.width - 1;
        let mut count: u8 = self.neighbor_live(row, column, up, left);
        count = count + self.neighbor_live(row, column, up, 0);
        count = count + self.neighbor_live(row, column, up, 1);
        count = count + self.neighbor_live(row, column, 0, left);
        count = count + self.neighbor_live(row, column, 0, 1);
        count = count + self.neighbor_live(row, column, 1, left);
        count = count + self.neighbor_live(row, column, 1, 0);
        count = count + self.neighbor_live(row, column, 1, 1);
        count
    }
}

} // verus!
