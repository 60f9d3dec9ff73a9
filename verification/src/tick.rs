//! The generation advance: every cell's next state is computed from the
//! pre-tick grid, then the whole storage is replaced in one step, so no
//! partial generation is ever visible.

use crate::cell::Cell;
use crate::grid::Universe;
use crate::grid::lemma_flat_in_range;
use crate::grid::lemma_flat_unflat;
use vstd::prelude::*;

verus! {

/// The rule table: a live cell survives with two or three live neighbors and
/// otherwise dies (underpopulation below two, overpopulation above three); a
/// dead cell comes alive with exactly three live neighbors and otherwise
/// stays dead.
pub open spec fn next_cell(cur: Cell, neighbors: int) -> Cell {
    match cur {
        Cell::Alive => if 2 <= neighbors <= 3 {
            Cell::Alive
        } else {
            Cell::Dead
        },
        Cell::Dead => if neighbors == 3 {
            Cell::Alive
        } else {
            Cell::Dead
        },
    }
}

impl Universe {
    /// The whole next generation: cell `i` of the result is the rule table
    /// applied to cell `i` and its pre-tick neighbor count.
    pub open spec fn spec_tick(self) -> Seq<Cell> {
        Seq::new(
            self.cells@.len(),
            |i: int|
                next_cell(
                    self.cells@[i],
                    self.spec_neighbor_count(i / (self.width as int), i % (self.width as int)),
                ),
        )
    }

    /// Advances the grid one generation. Every next state is computed
    /// against the pre-tick grid, and the storage is swapped wholesale. On a
    /// degenerate grid (width or height zero) there is nothing to iterate
    /// and the call is a no-op.
    pub fn tick(&mut self)
        requires
            old(self).wf(),
        ensures
            final(self).wf(),
            final(self).width == old(self).width,
            final(self).height == old(self).height,
            final(self).cells@ == old(self).spec_tick(),
            forall|r: int, c: int|
                old(self).in_bounds(r, c) ==> final(self).cell_at(r, c) == next_cell(
                    old(self).cell_at(r, c),
                    old(self).spec_neighbor_count(r, c),
                ),
    {
        let mut next = self.cells.clone();
        let mut row: u32 = 0;
        while row < self.height
            invariant
                self.wf(),
                *self == *old(self),
                row <= self.height,
                next@.len() == self.cells@.len(),
                forall|r: int, c: int|
                    self.in_bounds(r, c) && r < row ==> next@[self.flat(r, c)] == next_cell(
                        self.cell_at(r, c),
                        self.spec_neighbor_count(r, c),
                    ),
            decreases self.height - row,
        {
            let mut col: u32 = 0;
            while col < self.width
                invariant
                    self.wf(),
                    *self == *old(self),
                    row < self.height,
                    col <= self.width,
                    next@.len() == self.cells@.len(),
                    forall|r: int, c: int|
                        self.in_bounds(r, c) && (r < row || (r == row && c < col))
                            ==> next@[self.flat(r, c)] == next_cell(
                            self.cell_at(r, c),
                            self.spec_neighbor_count(r, c),
                        ),
                decreases self.width - col,
            {
                let idx = self.get_index(row, col);
                let cur = self.cells[idx];
                let neighbors = self.live_neighbor_count(row, col);
                let state = match cur {
                    Cell::Alive => if neighbors < 2 {
                        Cell::Dead
                    } else if neighbors <= 3 {
                        Cell::Alive
                    } else {
                        Cell::Dead
                    },
                    Cell::Dead => if neighbors == 3 {
                        Cell::Alive
                    } else {
                        Cell::Dead
                    },
                };
                next[idx] = state;
                proof {
                    assert forall|r: int, c: int|
                        self.in_bounds(r, c) && (r < row || (r == row && c < col
                            + 1)) implies next@[self.flat(r, c)] == next_cell(
                        self.cell_at(r, c),
                        self.spec_neighbor_count(r, c),
                    ) by {
                        lemma_flat_in_range(r, c, self.width as int, self.height as int);
                        if r != row || c != col {
                            assert(self.flat(r, c) != self.flat(row as int, col as int)) by {
                                lemma_flat_unflat(r, c, self.width as int);
                                lemma_flat_unflat(row as int, col as int, self.width as int);
                            }
                        }
                    }
                }
                col = col + 1;
            }
            row = row + 1;
        }
        proof {
            let g = *self;
            assert forall|i: int| 0 <= i < next@.len() implies next@[i] == g.spec_tick()[i] by {
                if g.width >= 1 {
                    let r = i / (g.width as int);
                    let c = i % (g.width as int);
                    vstd::arithmetic::div_mod::lemma_fundamental_div_mod(i, g.width as int);
                    vstd::arithmetic::div_mod::lemma_mod_bound(i, g.width as int);
                    assert(0 <= c < g.width);
                    assert(i == (g.width as int) * r + c);
                    assert(i == r * (g.width as int) + c) by (nonlinear_arith)
                        requires
                            i == (g.width as int) * r + c,
                    ;
                    assert(0 <= r < g.height) by (nonlinear_arith)
                        requires
                            i == r * (g.width as int) + c,
                            0 <= c < g.width,
                            0 <= i < (g.width as int) * (g.height as int),
                    ;
                    assert(g.in_bounds(r, c));
                    assert(next@[g.flat(r, c)] == next_cell(
                        g.cell_at(r, c),
                        g.spec_neighbor_count(r, c),
                    ));
                }
            }
            assert(next@ =~= self.spec_tick());
        }
        self.cells = next;
        proof {
            assert forall|r: int, c: int|
                old(self).in_bounds(r, c) implies self.cell_at(r, c) == next_cell(
                old(self).cell_at(r, c),
                old(self).spec_neighbor_count(r, c),
            ) by {
                lemma_flat_in_range(r, c, old(self).width as int, old(self).height as int);
                lemma_flat_unflat(r, c, old(self).width as int);
            }
        }
    }
}

} // verus!
