//! Laws of the engine, stated and proved once for all grids: the range of a
//! neighbor count, the wraparound seen from a corner, and the additive,
//! idempotent nature of seeding.

use crate::cell::Cell;
use crate::grid::Universe;
use crate::grid::lemma_flat_in_range;
use crate::grid::pair_covers;
use crate::grid::pair_hits;
use crate::grid::seeded_cells;
use vstd::arithmetic::div_mod::lemma_fundamental_div_mod_converse;
use vstd::prelude::*;

verus! {

/// A neighbor count is the sum of eight slots worth zero or one each, so it
/// always lies in `[0, 8]`, whatever the grid and coordinates.
pub proof fn lemma_neighbor_count_range(u: Universe, r: int, c: int)
    ensures
        0 <= u.spec_neighbor_count(r, c) <= 8,
{
}

/// A nonzero in-range coordinate pair maps to a nonzero flat index.
proof fn lemma_flat_nonzero(rr: int, cc: int, w: int)
    requires
        w >= 1,
        0 <= rr,
        0 <= cc,
        !(rr == 0 && cc == 0),
    ensures
        rr * w + cc > 0,
{
    assert(rr * w + cc > 0) by (nonlinear_arith)
        requires
            w >= 1,
            0 <= rr,
            0 <= cc,
            !(rr == 0 && cc == 0),
    ;
}

/// One neighbor slot of the far corner is unchanged when the cell at flat
/// index zero is updated, provided the slot does not land on that cell.
proof fn lemma_corner_term_unchanged(u: Universe, v: Universe, dr: int, dc: int)
    requires
        u.wf(),
        v.wf(),
        u.height >= 1,
        u.width >= 1,
        v.width == u.width,
        v.height == u.height,
        v.cells@ == u.cells@.update(0, Cell::Alive),
        ((u.height as int - 1 + dr) % (u.height as int)) * (u.width as int) + ((u.width as int - 1
            + dc) % (u.width as int)) != 0,
    ensures
        v.neighbor_term(u.height as int - 1, u.width as int - 1, dr, dc) == u.neighbor_term(
            u.height as int - 1,
            u.width as int - 1,
            dr,
            dc,
        ),
{
    let h = u.height as int;
    let w = u.width as int;
    let rr = (h - 1 + dr) % h;
    let cc = (w - 1 + dc) % w;
    vstd::arithmetic::div_mod::lemma_mod_bound(h - 1 + dr, h);
    vstd::arithmetic::div_mod::lemma_mod_bound(w - 1 + dc, w);
    lemma_flat_in_range(rr, cc, w, h);
}

/// Toroidal wraparound, seen from a corner: on any grid at least three wide
/// and three tall whose origin cell is dead, making the origin alive raises
/// the neighbor count of the diagonally opposite corner by exactly one —
/// that corner reaches the origin through exactly one of its eight slots,
/// the one that wraps around both edges at once.
pub proof fn lemma_toroidal_corner(u: Universe, v: Universe)
    requires
        u.wf(),
        v.wf(),
        u.width >= 3,
        u.height >= 3,
        v.width == u.width,
        v.height == u.height,
        u.cell_at(0, 0) is Dead,
        v.cells@ == u.cells@.update(0, Cell::Alive),
    ensures
        v.spec_neighbor_count(u.height as int - 1, u.width as int - 1) == u.spec_neighbor_count(
            u.height as int - 1,
            u.width as int - 1,
        ) + 1,
{
    let h = u.height as int;
    let w = u.width as int;
    let r = h - 1;
    let c = w - 1;
    // The three wrapped row coordinates reached from the last row.
    lemma_fundamental_div_mod_converse(r + (h - 1), h, 1, h - 2);
    lemma_fundamental_div_mod_converse(r + 0, h, 0, h - 1);
    lemma_fundamental_div_mod_converse(r + 1, h, 1, 0);
    // The three wrapped column coordinates reached from the last column.
    lemma_fundamental_div_mod_converse(c + (w - 1), w, 1, w - 2);
    lemma_fundamental_div_mod_converse(c + 0, w, 0, w - 1);
    lemma_fundamental_div_mod_converse(c + 1, w, 1, 0);
    // Seven of the eight slots land away from the origin and keep their value.
    lemma_flat_nonzero(h - 2, w - 2, w);
    lemma_corner_term_unchanged(u, v, h - 1, w - 1);
    lemma_flat_nonzero(h - 2, w - 1, w);
    lemma_corner_term_unchanged(u, v, h - 1, 0);
    lemma_flat_nonzero(h - 2, 0, w);
    lemma_corner_term_unchanged(u, v, h - 1, 1);
    lemma_flat_nonzero(h - 1, w - 2, w);
    lemma_corner_term_unchanged(u, v, 0, w - 1);
    lemma_flat_nonzero(h - 1, 0, w);
    lemma_corner_term_unchanged(u, v, 0, 1);
    lemma_flat_nonzero(0, w - 2, w);
    lemma_corner_term_unchanged(u, v, 1, w - 1);
    lemma_flat_nonzero(0, w - 1, w);
    lemma_corner_term_unchanged(u, v, 1, 0);
    // The eighth slot wraps around both edges and lands on the origin.
    lemma_flat_in_range(0, 0, w, h);
    assert(v.cell_at(0, 0) is Alive);
    assert(v.neighbor_term(r, c, 1, 1) == 1);
    assert(u.neighbor_term(r, c, 1, 1) == 0);
}

/// Additive seeding, the single-pair case: seeding one in-range pair into an
/// all-dead grid leaves exactly that one cell alive.
pub proof fn lemma_seed_single(cells: Seq<Cell>, w: int, h: int, row: u32, col: u32)
    requires
        cells.len() == w * h,
        (row as int) < h,
        (col as int) < w,
        forall|i: int| 0 <= i < cells.len() ==> cells[i] is Dead,
    ensures
        ({
            let out = seeded_cells(cells, seq![(row, col)], w);
            &&& out.len() == cells.len()
            &&& out[(row as int) * w + (col as int)] is Alive
            &&& forall|i: int|
                0 <= i < cells.len() && i != (row as int) * w + (col as int) ==> out[i] is Dead
        }),
{
    let pairs = seq![(row, col)];
    let out = seeded_cells(cells, pairs, w);
    let target = (row as int) * w + (col as int);
    lemma_flat_in_range(row as int, col as int, w, h);
    assert(pair_covers(pairs[0], w, target));
    assert(pair_hits(pairs, w, target));
    assert(out[target] is Alive);
    assert forall|i: int| 0 <= i < cells.len() && i != target implies out[i] is Dead by {
        if pair_hits(pairs, w, i) {
            let k = choose|k: int| 0 <= k < pairs.len() && pair_covers(pairs[k], w, i);
            assert(k == 0);
        }
    }
}

/// Additive seeding never kills: a cell alive before `set_cells` is alive
/// after it, whatever pairs are seeded — so repeating a seeding with an
/// overlapping list cannot toggle cells back to dead.
pub proof fn lemma_seed_preserves_alive(
    cells: Seq<Cell>,
    pairs: Seq<(u32, u32)>,
    w: int,
    i: int,
)
    requires
        0 <= i < cells.len(),
        cells[i] is Alive,
    ensures
        seeded_cells(cells, pairs, w)[i] is Alive,
{
}

/// Seeding is idempotent on the cells it names: a cell addressed by some
/// pair of the list is alive afterwards, no matter how often the pair
/// occurs or whether it was already alive.
pub proof fn lemma_seed_names_alive(cells: Seq<Cell>, pairs: Seq<(u32, u32)>, w: int, k: int)
    requires
        0 <= k < pairs.len(),
        0 <= pairs[k].0 * w + pairs[k].1 < cells.len(),
    ensures
        seeded_cells(cells, pairs, w)[pairs[k].0 * w + pairs[k].1] is Alive,
{
    assert(pair_covers(pairs[k], w, pairs[k].0 * w + pairs[k].1));
    assert(pair_hits(pairs, w, pairs[k].0 * w + pairs[k].1));
}

} // verus!
