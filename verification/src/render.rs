//! Text rendering: one line per row, a distinct glyph for each cell state,
//! every row terminated by a newline. A convenience for textual inspection,
//! not the primary rendering path.

use crate::cell::Cell;
use crate::grid::Universe;
use vstd::prelude::*;
use vstd::string::StringExecFns;

verus! {

/// True when the text `s`, drawn with rows of `width` glyphs plus a
/// newline, has its newline in place at the end of row `r`.
pub open spec fn line_break_at(s: Seq<char>, r: int, width: int) -> bool {
    s[r * (width + 1) + width] == '\n'
}

/// The glyph a cell is drawn with: a filled square when alive, an empty one
/// when dead.
pub open spec fn glyph(c: Cell) -> char {
    if c is Alive {
        '\u{25fc}'
    } else {
        '\u{25fb}'
    }
}

impl Universe {
    /// Draws the grid as text, row-major: each row is `width` glyphs
    /// followed by one newline, so the result has `height * (width + 1)`
    /// characters and the glyph of `(r, c)` stands at `r * (width + 1) + c`.
    pub fn render(&self) -> (s: String)
        requires
            self.wf(),
        ensures
            s@.len() == (self.height as int) * (self.width as int + 1),
            forall|r: int, c: int|
                self.in_bounds(r, c) ==> s@[r * (self.width as int + 1) + c] == glyph(
                    self.cell_at(r, c),
                ),
            forall|r: int| 0 <= r < self.height ==> line_break_at(s@, r, self.width as int),
    {
        proof {
            reveal_strlit("\u{25fc}");
            reveal_strlit("\u{25fb}");
            reveal_strlit("\n");
        }
        let ghost stride = self.width as int + 1;
        let mut s = String::new();
        let mut row: u32 = 0;
        while row < self.height
            invariant
                self.wf(),
                row <= self.height,
                stride == self.width as int + 1,
                s@.len() == row * stride,
                forall|r: int, c: int|
                    self.in_bounds(r, c) && r < row ==> s@[r * stride + c] == glyph(
                        self.cell_at(r, c),
                    ),
                forall|r: int| 0 <= r < row ==> line_break_at(s@, r, self.width as int),
            decreases self.height - row,
        {
            let mut col: u32 = 0;
            while col < self.width
                invariant
                    self.wf(),
                    row < self.height,
                    col <= self.width,
                    stride == self.width as int + 1,
                    s@.len() == row * stride + col,
                    forall|r: int, c: int|
                        self.in_bounds(r, c) && (r < row || (r == row && c < col)) ==> s@[r
                            * stride + c] == glyph(self.cell_at(r, c)),
                    forall|r: int| 0 <= r < row ==> line_break_at(s@, r, self.width as int),
                decreases self.width - col,
            {
                let idx = self.get_index(row, col);
                let alive = match self.cells[idx] {
                    Cell::Alive => true,
                    Cell::Dead => false,
                };
                let ghost pre = s@;
                if alive {
                    s.append("\u{25fc}");
                } else {
                    s.append("\u{25fb}");
                }
                proof {
                    reveal_strlit("\u{25fc}");
                    reveal_strlit("\u{25fb}");
                    assert(s@[row * stride + col] == glyph(self.cell_at(row as int, col as int)));
                    assert forall|r: int, c: int|
                        self.in_bounds(r, c) && (r < row || (r == row && c < col + 1)) implies s@[
                        r * stride + c] == glyph(self.cell_at(r, c)) by {
                        if r < row || (r == row && c < col) {
                            lemma_row_major_order(r, c, row as int, col as int, stride);
                        }
                    }
                    assert forall|r: int| 0 <= r < row implies line_break_at(
                        s@,
                        r,
                        self.width as int,
                    ) by {
                        lemma_row_major_order(r, self.width as int, row as int, col as int, stride);
                        assert(r * stride + (self.width as int) < pre.len());
                        assert(s@[r * (self.width as int + 1) + self.width as int] == pre[r * (
                        self.width as int + 1) + self.width as int]);
                        assert(line_break_at(pre, r, self.width as int));
                    }
                }
                col = col + 1;
            }
            let ghost pre = s@;
            s.append("\n");
            proof {
                reveal_strlit("\n");
                assert((row + 1) * stride == row * stride + stride) by (nonlinear_arith);
                assert forall|r: int, c: int|
                    self.in_bounds(r, c) && r < row + 1 implies s@[r * stride + c] == glyph(
                    self.cell_at(r, c),
                ) by {
                    lemma_row_major_order(r, c, row as int, self.width as int, stride);
                }
                assert forall|r: int| 0 <= r < row + 1 implies line_break_at(
                    s@,
                    r,
                    self.width as int,
                ) by {
                    if r < row {
                        lemma_row_major_order(
                            r,
                            self.width as int,
                            row as int,
                            self.width as int,
                            stride,
                        );
                        assert(r * stride + (self.width as int) < pre.len());
                        assert(s@[r * (self.width as int + 1) + self.width as int] == pre[r * (
                        self.width as int + 1) + self.width as int]);
                        assert(line_break_at(pre, r, self.width as int));
                    } else {
                        assert(row * stride + (self.width as int) == pre.len());
                        assert(s@[row * (self.width as int + 1) + self.width as int] == '\n');
                    }
                }
            }
            row = row + 1;
        }
        s
    }
}

/// In a row-major text of the given stride, a position strictly before the
/// cursor `(row, col)` keeps its flat index below the cursor's.
proof fn lemma_row_major_order(r: int, c: int, row: int, col: int, stride: int)
    requires
        0 <= c < stride,
        0 <= col,
        r < row || (r == row && c < col),
    ensures
        r * stride + c < row * stride + col,
{
    assert(r * stride + c < row * stride + col) by (nonlinear_arith)
        requires
            0 <= c < stride,
            0 <= col,
            r < row || (r == row && c < col),
    ;
}

} // verus!
