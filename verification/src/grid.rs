//! The grid itself: storage, construction, resizing and direct mutation.

use crate::cell::Cell;
use crate::cell::flip;
use vstd::arithmetic::div_mod::lemma_fundamental_div_mod_converse;
use vstd::prelude::*;

verus! {

/// Signalled when a caller addresses a cell outside
/// `[0, height) x [0, width)` in a direct-access operation. Direct addressing
/// never wraps: wraparound is intentional only inside neighbor counting, and
/// silently wrapping a bad index here would mask caller bugs.
#[derive(Clone, Copy, Debug, PartialEq, Eq, Structural)]
pub struct AddressingError;

/// The universe: a toroidal grid of cells, stored row-major. The cell at
/// `(row, col)` sits at flat index `row * width + col`.
pub struct Universe {
    pub width: u32,
    pub height: u32,
    pub cells: Vec<Cell>,
}

/// The deterministic seed pattern used by the default constructor: the cell
/// at flat index `i` starts alive when `i` is a multiple of two or of seven.
pub open spec fn seed_cell(i: int) -> Cell {
    if i % 2 == 0 || i % 7 == 0 {
        Cell::Alive
    } else {
        Cell::Dead
    }
}

/// True when the pair `(row, col)` written into flat storage of the given
/// width lands on index `i`.
pub open spec fn pair_covers(p: (u32, u32), w: int, i: int) -> bool {
    p.0 * w + p.1 == i
}

/// True when some pair of `pairs` addresses flat index `i`.
pub open spec fn pair_hits(pairs: Seq<(u32, u32)>, w: int, i: int) -> bool {
    exists|k: int| 0 <= k < pairs.len() && pair_covers(pairs[k], w, i)
}

/// The cell sequence after marking every cell addressed by `pairs` alive and
/// leaving every other cell as it was.
pub open spec fn seeded_cells(cells: Seq<Cell>, pairs: Seq<(u32, u32)>, w: int) -> Seq<Cell> {
    Seq::new(cells.len(), |i: int| if pair_hits(pairs, w, i) { Cell::Alive } else { cells[i] })
}

impl Universe {
    /// Well-formedness: the backing storage always holds exactly
    /// `width * height` cells.
    pub open spec fn wf(self) -> bool {
        self.cells@.len() == (self.width as int) * (self.height as int)
    }

    /// True when `(r, c)` names a cell of this grid.
    pub open spec fn in_bounds(self, r: int, c: int) -> bool {
        0 <= r < self.height && 0 <= c < self.width
    }

    /// The flat, row-major index of `(r, c)`.
    pub open spec fn flat(self, r: int, c: int) -> int {
        r * (self.width as int) + c
    }

    /// The cell stored at `(r, c)`.
    pub open spec fn cell_at(self, r: int, c: int) -> Cell {
        self.cells@[self.flat(r, c)]
    }

    /// Builds the canonical default universe: 64 by 64, seeded with the
    /// deterministic pattern of `seed_cell`.
    pub fn new() -> (u: Universe)
        ensures
            u.wf(),
            u.width == 64,
            u.height == 64,
            u.cells@.len() == 4096,
            forall|i: int| 0 <= i < 4096 ==> #[trigger] u.cells@[i] == seed_cell(i),
    {
        let mut cells: Vec<Cell> = Vec::new();
        let mut i: usize = 0;
        while i < 4096
            invariant
                i <= 4096,
                cells@.len() == i,
                forall|j: int| 0 <= j < i ==> #[trigger] cells@[j] == seed_cell(j),
            decreases 4096 - i,
        {
            if i % 2 == 0 || i % 7 == 0 {
                cells.push(Cell::Alive);
            } else {
                cells.push(Cell::Dead);
            }
            i = i + 1;
        }
        Universe { width: 64, height: 64, cells }
    }

    /// The number of columns.
    pub fn width(&self) -> (w: u32)
        ensures
            w == self.width,
    {
        self.width
    }

    /// The number of rows.
    pub fn height(&self) -> (h: u32)
        ensures
            h == self.height,
    {
        self.height
    }

    /// A read-only view of the backing storage, row-major, one cell per
    /// entry. The borrow must not be assumed valid across a later resize or
    /// tick.
    pub fn cells(&self) -> (r: &[Cell])
        ensures
            r@ == self.cells@,
    {
        self.cells.as_slice()
    }

    /// Same read-only view of the backing storage as `cells`.
    pub fn get_cells(&self) -> (r: &[Cell])
        ensures
            r@ == self.cells@,
    {
        self.cells.as_slice()
    }

    /// The flat index of an in-range `(row, column)`; no wraparound is
    /// applied here.
    pub fn get_index(&self, row: u32, column: u32) -> (idx: usize)
        requires
            self.wf(),
            row < self.height,
            column < self.width,
        ensures
            idx == self.flat(row as int, column as int),
            idx < self.cells@.len(),
    {
        let n = self.cells.len();
        proof {
            lemma_flat_in_range(row as int, column as int, self.width as int, self.height as int);
            assert(row as int * (self.width as int) + (column as int) < (n as int));
        }
        (row as usize) * (self.width as usize) + (column as usize)
    }
    /// Sets the width and resets the grid: the storage is reallocated to
    /// `width * height` cells, all dead. A hard reset, not a crop or extend.
    pub fn set_width(&mut self, width: u32)
        requires
            (width as int) * (old(self).height as int) <= usize::MAX,
        ensures
            final(self).wf(),
            final(self).width == width,
            final(self).height == old(self).height,
            final(self).cells@.len() == (width as int) * (old(self).height as int),
            forall|i: int| 0 <= i < final(self).cells@.len() ==> final(self).cells@[i] is Dead,
    {
        let n = (width as usize) * (self.height as usize);
        self.width = width;
        self.cells = dead_cells(n);
    }

    /// Sets the height and resets the grid: the storage is reallocated to
    /// `width * height` cells, all dead. A hard reset, not a crop or extend.
    pub fn set_height(&mut self, height: u32)
        requires
            (old(self).width as int) * (height as int) <= usize::MAX,
        ensures
            final(self).wf(),
            final(self).width == old(self).width,
            final(self).height == height,
            final(self).cells@.len() == (old(self).width as int) * (height as int),
            forall|i: int| 0 <= i < final(self).cells@.len() ==> final(self).cells@[i] is Dead,
    {
        let n = (self.width as usize) * (height as usize);
        self.height = height;
        self.cells = dead_cells(n);
    }

    /// Flips the cell at `(row, col)` in place. An out-of-range pair is
    /// rejected with an `AddressingError` and leaves the grid untouched:
    /// direct addressing never wraps.
    pub fn toggle_cell(&mut self, row: u32, col: u32) -> (result: Result<(), AddressingError>)
        requires
            old(self).wf(),
        ensures
            final(self).wf(),
            final(self).width == old(self).width,
            final(self).height == old(self).height,
            result is Ok <==> row < old(self).height && col < old(self).width,
            result is Ok ==> final(self).cells@ == old(self).cells@.update(
                old(self).flat(row as int, col as int),
                flip(old(self).cell_at(row as int, col as int)),
            ),
            result is Err ==> final(self).cells@ == old(self).cells@,
    {
        if row < self.height && col < self.width {
            let idx = self.get_index(row, col);
            let mut c = self.cells[idx];
            c.toggle();
            self.cells[idx] = c;
            Ok(())
        } else {
            Err(AddressingError)
        }
    }

    /// Marks each listed `(row, col)` pair alive, touching no other cell:
    /// purely additive, and idempotent over duplicate pairs. If any pair is
    /// out of range the whole call is rejected with an `AddressingError` and
    /// the grid is left untouched.
    pub fn set_cells(&mut self, pairs: &[(u32, u32)]) -> (result: Result<(), AddressingError>)
        requires
            old(self).wf(),
        ensures
            final(self).wf(),
            final(self).width == old(self).width,
            final(self).height == old(self).height,
            result is Ok <==> (forall|k: int|
                0 <= k < pairs@.len() ==> pairs@[k].0 < old(self).height && pairs@[k].1 < old(
                    self,
                ).width),
            result is Ok ==> final(self).cells@ == seeded_cells(
                old(self).cells@,
                pairs@,
                old(self).width as int,
            ),
            result is Err ==> final(self).cells@ == old(self).cells@,
    {
        let mut k: usize = 0;
        while k < pairs.len()
            invariant
                self.wf(),
                self.width == old(self).width,
                self.height == old(self).height,
                self.cells@ == old(self).cells@,
                k <= pairs@.len(),
                forall|j: int|
                    0 <= j < k ==> pairs@[j].0 < self.height && pairs@[j].1 < self.width,
            decreases pairs@.len() - k,
        {
            let (row, col) = pairs[k];
            if !(row < self.height && col < self.width) {
                return Err(AddressingError);
            }
            k = k + 1;
        }
        let ghost w = self.width as int;
        let ghost orig = self.cells@;
        let mut k: usize = 0;
        while k < pairs.len()
            invariant
                self.wf(),
                self.width == old(self).width,
                self.height == old(self).height,
                k <= pairs@.len(),
                orig.len() == self.cells@.len(),
                w == self.width as int,
                orig == old(self).cells@,
                forall|j: int|
                    0 <= j < pairs@.len() ==> pairs@[j].0 < self.height && pairs@[j].1
                        < self.width,
                forall|i: int|
                    0 <= i < self.cells@.len() ==> self.cells@[i] == (if partial_hits(
                        pairs@,
                        w,
                        i,
                        k as int,
                    ) {
                        Cell::Alive
                    } else {
                        orig[i]
                    }),
            decreases pairs@.len() - k,
        {
            let (row, col) = pairs[k];
            let idx = self.get_index(row, col);
            self.cells[idx] = Cell::Alive;
            proof {
                assert forall|i: int| 0 <= i < self.cells@.len() implies self.cells@[i] == (
                if partial_hits(pairs@, w, i, k + 1) {
                    Cell::Alive
                } else {
                    orig[i]
                }) by {
                    if i == idx {
                        assert(pair_covers(pairs@[k as int], w, i));
                        assert(partial_hits(pairs@, w, i, k + 1));
                    } else {
                        if partial_hits(pairs@, w, i, k + 1) {
                            let j = choose|j: int|
                                0 <= j < k + 1 && j < pairs@.len() && pair_covers(pairs@[j], w, i);
                            assert(j < k) by {
                                if j == k {
                                    assert(pair_covers(pairs@[j], w, idx as int));
                                }
                            }
                            assert(partial_hits(pairs@, w, i, k as int));
                        }
                        if partial_hits(pairs@, w, i, k as int) {
                            let j = choose|j: int|
                                0 <= j < k && j < pairs@.len() && pair_covers(pairs@[j], w, i);
                            assert(0 <= j < k + 1 && j < pairs@.len() && pair_covers(
                                pairs@[j],
                                w,
                                i,
                            ));
                            assert(partial_hits(pairs@, w, i, k + 1));
                        }
                    }
                }
            }
            k = k + 1;
        }
        proof {
            assert forall|i: int| 0 <= i < self.cells@.len() implies self.cells@[i]
                == seeded_cells(orig, pairs@, w)[i] by {
                assert(partial_hits(pairs@, w, i, pairs@.len() as int) == pair_hits(
                    pairs@,
                    w,
                    i,
                ));
            }
            assert(self.cells@ =~= seeded_cells(orig, pairs@, w));
        }
        Ok(())
    }
}

/// True when some pair among the first `k` of `pairs` addresses flat index
/// `i`: the prefix of `pair_hits` that a seeding pass has applied so far.
spec fn partial_hits(pairs: Seq<(u32, u32)>, w: int, i: int, k: int) -> bool {
    exists|j: int| 0 <= j < k && j < pairs.len() && pair_covers(pairs[j], w, i)
}

/// A vector of `n` dead cells.
fn dead_cells(n: usize) -> (cells: Vec<Cell>)
    ensures
        cells@.len() == n,
        forall|i: int| 0 <= i < n ==> cells@[i] is Dead,
{
    let mut cells: Vec<Cell> = Vec::new();
    let mut i: usize = 0;
    while i < n
        invariant
            i <= n,
            cells@.len() == i,
            forall|j: int| 0 <= j < i ==> cells@[j] is Dead,
        decreases n - i,
    {
        cells.push(Cell::Dead);
        i = i + 1;
    }
    cells
}

/// An in-range coordinate pair maps to a flat index inside the storage.
pub proof fn lemma_flat_in_range(r: int, c: int, w: int, h: int)
    requires
        0 <= r < h,
        0 <= c < w,
    ensures
        0 <= r * w + c < w * h,
{
    assert(0 <= r * w + c < w * h) by (nonlinear_arith)
        requires
            0 <= r < h,
            0 <= c < w,
    ;
}

/// A flat index decomposes back into its row and column by division and
/// remainder.
pub proof fn lemma_flat_unflat(r: int, c: int, w: int)
    requires
        0 <= r,
        0 <= c < w,
    ensures
        (r * w + c) / w == r,
        (r * w + c) % w == c,
{
    lemma_fundamental_div_mod_converse(r * w + c, w, r, c);
}

} // verus!
