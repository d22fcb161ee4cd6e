use vstd::prelude::*;

verus! {

/// A rectangular grid of cells, each filled or empty, addressed by column and
/// row from the top left, or relative to its centre cell
/// `(width / 2, height / 2)`.
pub struct Grid {
    width: usize,
    height: usize,
    cells: Vec<bool>,
}

spec fn cell(s: Seq<bool>, w: int, c: int, r: int) -> bool {
    s[r * w + c]
}

proof fn lemma_cell_index(w: int, h: int, c: int, r: int)
    requires
        0 <= c < w,
        0 <= r < h,
    ensures
        0 <= r * w + c < w * h,
{
    assert(r * w + c < w * h) by (nonlinear_arith)
        requires
            0 <= c < w,
            0 <= r < h,
    ;
    assert(0 <= r * w) by (nonlinear_arith)
        requires
            0 <= r,
            0 <= w,
    ;
}

proof fn lemma_cell_index_unique(w: int, c1: int, r1: int, c2: int, r2: int)
    requires
        0 <= c1 < w,
        0 <= c2 < w,
        0 <= r1,
        0 <= r2,
        r1 * w + c1 == r2 * w + c2,
    ensures
        r1 == r2,
        c1 == c2,
{
    if r1 < r2 {
        assert(r1 * w + w <= r2 * w) by (nonlinear_arith)
            requires
                r1 < r2,
                0 <= w,
        ;
    } else if r2 < r1 {
        assert(r2 * w + w <= r1 * w) by (nonlinear_arith)
            requires
                r2 < r1,
                0 <= w,
        ;
    }
}

impl Grid {
    /// The cells are stored row after row.
    pub closed spec fn wf(&self) -> bool {
        &&& self.cells@.len() == self.width * self.height
        &&& self.width * self.height <= usize::MAX
    }

    pub closed spec fn spec_width(&self) -> nat {
        self.width as nat
    }

    pub closed spec fn spec_height(&self) -> nat {
        self.height as nat
    }

    /// Whether the cell in column `c` and row `r` is filled.
    pub closed spec fn spec_filled(&self, c: int, r: int) -> bool {
        cell(self.cells@, self.width as int, c, r)
    }

    /// The column of the centre cell.
    pub open spec fn spec_center_x(&self) -> int {
        self.spec_width() as int / 2
    }

    /// The row of the centre cell.
    pub open spec fn spec_center_y(&self) -> int {
        self.spec_height() as int / 2
    }

    /// An empty grid of `width` columns and `height` rows.
    pub fn new(width: usize, height: usize) -> (r: Grid)
        requires
            width * height <= usize::MAX,
        ensures
            r.wf(),
            r.spec_width() == width,
            r.spec_height() == height,
            forall|c: int, row: int|
                0 <= c < width && 0 <= row < height ==> !r.spec_filled(c, row),
    {
        let n: usize = width * height;
        let mut cells: Vec<bool> = Vec::new();
        let mut i: usize = 0;
        while i < n
            invariant
                i <= n,
                cells@.len() == i,
                forall|j: int| 0 <= j < i ==> !cells@[j],
            decreases n - i,
        {
            cells.push(false);
            i = i + 1;
        }
        let g = Grid { width, height, cells };
        assert forall|c: int, row: int|
            0 <= c < width && 0 <= row < height implies !g.spec_filled(c, row) by {
            lemma_cell_index(width as int, height as int, c, row);
        }
        g
    }

    pub fn width(&self) -> (r: usize)
        ensures
            r == self.spec_width(),
    {
        self.width
    }

    pub fn height(&self) -> (r: usize)
        ensures
            r == self.spec_height(),
    {
        self.height
    }

    /// Whether the cell in column `c` and row `r` is filled.
    pub fn is_filled(&self, c: usize, r: usize) -> (b: bool)
        requires
            self.wf(),
            c < self.spec_width(),
            r < self.spec_height(),
        ensures
            b == self.spec_filled(c as int, r as int),
    {
        proof {
            lemma_cell_index(self.width as int, self.height as int, c as int, r as int);
        }
        self.cells[r * self.width + c]
    }

    /// Fills the cells of one column of a wall span: the cells whose coordinates
    /// relative to the centre are `(x, y)` with `y_lo <= y <= y_hi`. Cells of the
    /// span that fall outside the grid are left out; every other cell keeps its state.
    pub fn fill_column(&mut self, x: i64, y_lo: i64, y_hi: i64)
        requires
            old(self).wf(),
        ensures
            final(self).wf(),
            final(self).spec_width() == old(self).spec_width(),
            final(self).spec_height() == old(self).spec_height(),
            forall|c: int, r: int|
                0 <= c < final(self).spec_width() && 0 <= r < final(self).spec_height() ==> (
                final(self).spec_filled(c, r) == (old(self).spec_filled(c, r) || (c
                    - old(self).spec_center_x() == x && y_lo <= r - old(self).spec_center_y()
                    <= y_hi))),
    {
        let w = self.width;
        let h = self.height;
        let col: i128 = (w / 2) as i128 + x as i128;
        if col < 0 || col >= w as i128 {
            return;
        }
        let col: usize = col as usize;
        let lo: i128 = (h / 2) as i128 + y_lo as i128;
        let hi: i128 = (h / 2) as i128 + y_hi as i128;
        let start: usize = if lo < 0 {
            0
        } else if lo > h as i128 {
            h
        } else {
            lo as usize
        };
        let end: usize = if hi < start as i128 {
            start
        } else if hi >= h as i128 {
            h
        } else {
            (hi + 1) as usize
        };
        let ghost before = self.cells@;
        let mut r: usize = start;
        while r < end
            invariant
                self.width == w,
                self.height == h,
                self.cells@.len() == w * h,
                w * h <= usize::MAX,
                col < w,
                start <= r <= end <= h,
                forall|c: int, row: int|
                    0 <= c < w && 0 <= row < h ==> (#[trigger] cell(self.cells@, w as int, c, row)
                        == (cell(before, w as int, c, row) || (c == col && start <= row < r))),
            decreases end - r,
        {
            proof {
                lemma_cell_index(w as int, h as int, col as int, r as int);
            }
            let ghost prev = self.cells@;
            self.cells.set(r * w + col, true);
            proof {
                assert forall|c: int, row: int| 0 <= c < w && 0 <= row < h implies (#[trigger] cell(
                    self.cells@,
                    w as int,
                    c,
                    row,
                ) == (cell(before, w as int, c, row) || (c == col && start <= row < r + 1))) by {
                    lemma_cell_index(w as int, h as int, c, row);
                    assert(cell(prev, w as int, c, row) == (cell(before, w as int, c, row) || (c
                        == col && start <= row < r)));
                    if row * w + c == r * w + col {
                        lemma_cell_index_unique(w as int, c, row, col as int, r as int);
                    } else {
                        assert(cell(self.cells@, w as int, c, row) == cell(prev, w as int, c, row));
                    }
                }
            }
            r = r + 1;
        }
        proof {
            assert forall|c: int, row: int|
                0 <= c < w && 0 <= row < h implies (self.spec_filled(c, row) == (cell(
                before,
                w as int,
                c,
                row,
            ) || (c - w / 2 == x && y_lo <= row - h / 2 <= y_hi))) by {
                assert(cell(self.cells@, w as int, c, row) == (cell(before, w as int, c, row) || (c
                    == col && start <= row < end)));
            }
        }
    }
}

} // verus!
