//! The well's grid of placed blocks: point queries, writes, full-row
//! detection, clearing and compaction.
use vstd::prelude::*;
use crate::piece::{Point, TetrominoType, WELL_WIDTH};

verus! {

/// A placed cell: the kind of the piece it came from.
#[derive(Clone, Copy, PartialEq, Eq, Structural, Debug)]
pub struct Block {
    pub kind: TetrominoType,
}

/// A `width x height` grid of cells, row-major, row 0 at the floor.
pub struct Board {
    pub width: usize,
    pub height: usize,
    pub cells: Vec<Option<Block>>,
}

/// Index of `(x, y)` in a row-major grid of rows of `w` cells.
pub fn rel_xy_idx(x: usize, y: usize, w: usize) -> (i: usize)
    requires
        y * w + x <= usize::MAX,
    ensures
        i == y * w + x,
{
    y * w + x
}

/// Index of `(x, y)` in a grid as wide as the well.
pub fn xy_idx(x: usize, y: usize) -> (i: usize)
    requires
        y * WELL_WIDTH + x <= usize::MAX,
    ensures
        i == y * WELL_WIDTH + x,
{
    rel_xy_idx(x, y, WELL_WIDTH)
}

pub proof fn lemma_index(w: int, h: int, x: int, y: int)
    requires
        0 <= x < w,
        0 <= y < h,
    ensures
        0 <= y * w + x < h * w,
        0 <= y * w + x < w * h,
{
    assert(y * w + x < h * w && h * w == w * h) by (nonlinear_arith)
        requires
            0 <= x < w,
            0 <= y < h,
    ;
    assert(0 <= y * w) by (nonlinear_arith)
        requires
            0 <= x < w,
            0 <= y < h,
    ;
}

pub proof fn lemma_index_inj(w: int, x1: int, y1: int, x2: int, y2: int)
    requires
        0 <= x1 < w,
        0 <= x2 < w,
        0 <= y1,
        0 <= y2,
        y1 * w + x1 == y2 * w + x2,
    ensures
        x1 == x2,
        y1 == y2,
{
    assert(y1 == y2) by (nonlinear_arith)
        requires
            0 <= x1 < w,
            0 <= x2 < w,
            0 <= y1,
            0 <= y2,
            y1 * w + x1 == y2 * w + x2,
    ;
}

/// How many of `rows` lie strictly below row `y`.
pub open spec fn count_below(rows: Seq<usize>, y: int) -> int
    decreases rows.len(),
{
    if rows.len() == 0 {
        0
    } else {
        count_below(rows.drop_last(), y) + if (rows.last() as int) < y {
            1int
        } else {
            0int
        }
    }
}

/// Row indices of a board of `h` rows, each listed once.
pub open spec fn valid_rows(rows: Seq<usize>, h: int) -> bool {
    &&& rows.no_duplicates()
    &&& forall|i: int| 0 <= i < rows.len() ==> (#[trigger] rows[i] as int) < h
}

impl Board {
    pub open spec fn wf(&self) -> bool {
        &&& self.width >= 1
        &&& self.width * self.height <= usize::MAX
        &&& self.cells@.len() == self.width * self.height
    }

    pub open spec fn cell(&self, x: int, y: int) -> Option<Block> {
        self.cells@[y * self.width + x]
    }

    pub open spec fn in_bounds(&self, x: int, y: int) -> bool {
        0 <= x < self.width && 0 <= y < self.height
    }

    /// A block sits at `(x, y)`; nothing sits outside the grid.
    pub open spec fn occupied(&self, x: int, y: int) -> bool {
        self.in_bounds(x, y) && self.cell(x, y) is Some
    }

    pub open spec fn row_full(&self, y: int) -> bool {
        forall|x: int| 0 <= x < self.width ==> #[trigger] self.cell(x, y) is Some
    }

    pub open spec fn row_empty(&self, y: int) -> bool {
        forall|x: int| 0 <= x < self.width ==> #[trigger] self.cell(x, y) is None
    }

    pub open spec fn is_empty(&self) -> bool {
        forall|y: int| 0 <= y < self.height ==> #[trigger] self.row_empty(y)
    }

    pub open spec fn is_full(&self) -> bool {
        forall|y: int| 0 <= y < self.height ==> #[trigger] self.row_full(y)
    }

    pub open spec fn same_dims(&self, other: &Board) -> bool {
        &&& other.wf()
        &&& other.width == self.width
        &&& other.height == self.height
    }

    /// An empty board of the given size.
    pub fn new(width: usize, height: usize) -> (b: Board)
        requires
            width >= 1,
            width * height <= usize::MAX,
        ensures
            b.wf(),
            b.width == width,
            b.height == height,
            b.is_empty(),
    {
        let n = width * height;
        let mut cells: Vec<Option<Block>> = Vec::new();
        let mut i: usize = 0;
        while i < n
            invariant
                i <= n,
                cells@.len() == i,
                forall|j: int| 0 <= j < i ==> cells@[j] is None,
            decreases n - i,
        {
            cells.push(None);
            i += 1;
        }
        let b = Board { width, height, cells };
        assert forall|y: int| 0 <= y < height implies #[trigger] b.row_empty(y) by {
            assert forall|x: int| 0 <= x < width implies #[trigger] b.cell(x, y) is None by {
                lemma_index(width as int, height as int, x, y);
            }
        }
        b
    }

    /// Whether a block sits at `(x, y)`; false outside the grid.
    pub fn is_occupied(&self, x: i32, y: i32) -> (r: bool)
        requires
            self.wf(),
        ensures
            r == self.occupied(x as int, y as int),
    {
        if x < 0 || y < 0 || x as usize >= self.width || y as usize >= self.height {
            return false;
        }
        proof {
            lemma_index(self.width as int, self.height as int, x as int, y as int);
        }
        self.cells[rel_xy_idx(x as usize, y as usize, self.width)].is_some()
    }

    /// Writes `block` at `(x, y)`.
    pub fn set_cell(&mut self, x: usize, y: usize, block: Option<Block>)
        requires
            old(self).wf(),
            old(self).in_bounds(x as int, y as int),
        ensures
            old(self).same_dims(final(self)),
            forall|i: int, j: int|
                #![trigger final(self).cell(i, j)]
                old(self).in_bounds(i, j) ==> final(self).cell(i, j) == if i == x && j == y {
                    block
                } else {
                    old(self).cell(i, j)
                },
    {
        proof {
            lemma_index(self.width as int, self.height as int, x as int, y as int);
        }
        let idx = rel_xy_idx(x, y, self.width);
        self.cells.set(idx, block);
        proof {
            assert forall|i: int, j: int|
                #![trigger self.cell(i, j)]
                old(self).in_bounds(i, j) implies self.cell(i, j) == if i == x && j == y {
                    block
                } else {
                    old(self).cell(i, j)
                } by {
                lemma_index(self.width as int, self.height as int, i, j);
                if j * self.width + i == y * self.width + x {
                    lemma_index_inj(self.width as int, i, j, x as int, y as int);
                }
            }
        }
    }

    /// Whether every cell of row `y` holds a block.
    pub fn is_row_full(&self, y: usize) -> (r: bool)
        requires
            self.wf(),
            y < self.height,
        ensures
            r == self.row_full(y as int),
    {
        let mut x: usize = 0;
        while x < self.width
            invariant
                self.wf(),
                y < self.height,
                x <= self.width,
                forall|i: int| 0 <= i < x ==> #[trigger] self.cell(i, y as int) is Some,
            decreases self.width - x,
        {
            proof {
                lemma_index(self.width as int, self.height as int, x as int, y as int);
            }
            if self.cells[rel_xy_idx(x, y, self.width)].is_none() {
                assert(self.cell(x as int, y as int) is None);
                return false;
            }
            x += 1;
        }
        true
    }

    /// Empties every cell of row `y`.
    pub fn clear_row(&mut self, y: usize)
        requires
            old(self).wf(),
            y < old(self).height,
        ensures
            old(self).same_dims(final(self)),
            forall|i: int, j: int|
                #![trigger final(self).cell(i, j)]
                old(self).in_bounds(i, j) ==> final(self).cell(i, j) == if j == y {
                    None
                } else {
                    old(self).cell(i, j)
                },
    {
        let ghost start = *self;
        let mut x: usize = 0;
        while x < self.width
            invariant
                start.wf(),
                y < start.height,
                start.same_dims(self),
                x <= self.width,
                forall|i: int, j: int|
                    #![trigger self.cell(i, j)]
                    start.in_bounds(i, j) ==> self.cell(i, j) == if j == y && i < x {
                        None
                    } else {
                        start.cell(i, j)
                    },
            decreases self.width - x,
        {
            self.set_cell(x, y, None);
            x += 1;
        }
    }

    /// Copies row `from` onto row `to`; the other rows stay.
    pub fn copy_row(&mut self, from: usize, to: usize)
        requires
            old(self).wf(),
            from < old(self).height,
            to < old(self).height,
        ensures
            old(self).same_dims(final(self)),
            forall|i: int, j: int|
                #![trigger final(self).cell(i, j)]
                old(self).in_bounds(i, j) ==> final(self).cell(i, j) == if j == to {
                    old(self).cell(i, from as int)
                } else {
                    old(self).cell(i, j)
                },
    {
        let ghost start = *self;
        let mut x: usize = 0;
        while x < self.width
            invariant
                start.wf(),
                from < start.height,
                to < start.height,
                start.same_dims(self),
                x <= self.width,
                forall|i: int, j: int|
                    #![trigger self.cell(i, j)]
                    start.in_bounds(i, j) ==> self.cell(i, j) == if j == to && i < x {
                        start.cell(i, from as int)
                    } else {
                        start.cell(i, j)
                    },
            decreases self.width - x,
        {
            proof {
                lemma_index(self.width as int, self.height as int, x as int, from as int);
            }
            let v = self.cells[rel_xy_idx(x, from, self.width)];
            assert(v == self.cell(x as int, from as int));
            assert(v == start.cell(x as int, from as int));
            self.set_cell(x, to, v);
            x += 1;
        }
    }
}

pub proof fn lemma_count_zero(rows: Seq<usize>)
    ensures
        count_below(rows, 0) == 0,
    decreases rows.len(),
{
    if rows.len() > 0 {
        lemma_count_zero(rows.drop_last());
    }
}

pub proof fn lemma_count_all(rows: Seq<usize>, h: int)
    requires
        forall|i: int| 0 <= i < rows.len() ==> (#[trigger] rows[i] as int) < h,
    ensures
        count_below(rows, h) == rows.len(),
    decreases rows.len(),
{
    if rows.len() > 0 {
        let r = rows.drop_last();
        assert forall|i: int| 0 <= i < r.len() implies (#[trigger] r[i] as int) < h by {
            assert(r[i] == rows[i]);
        }
        lemma_count_all(r, h);
        assert(rows.last() == rows[rows.len() - 1]);
    }
}

/// Moving up one row adds one to the count exactly when the row left
/// behind is listed.
pub proof fn lemma_count_step(rows: Seq<usize>, y: int)
    requires
        rows.no_duplicates(),
        0 <= y < usize::MAX,
    ensures
        count_below(rows, y + 1) == count_below(rows, y) + if rows.contains(y as usize) {
            1int
        } else {
            0int
        },
    decreases rows.len(),
{
    if rows.len() > 0 {
        let r = rows.drop_last();
        assert(r.no_duplicates()) by {
            assert forall|i: int, j: int| 0 <= i < r.len() && 0 <= j < r.len() && i != j implies r[i]
                != r[j] by {
                assert(r[i] == rows[i] && r[j] == rows[j]);
            }
        }
        lemma_count_step(r, y);
        let l = rows.last();
        assert(l == rows[rows.len() - 1]);
        assert(count_below(rows, y + 1) == count_below(r, y + 1) + if (l as int) < y + 1 {
            1int
        } else {
            0int
        });
        assert(count_below(rows, y) == count_below(r, y) + if (l as int) < y {
            1int
        } else {
            0int
        });
        if r.contains(y as usize) {
            let k = choose|k: int| 0 <= k < r.len() && r[k] == y as usize;
            assert(rows[k] == r[k]);
            assert(l != y as usize);
            assert(rows.contains(y as usize));
        } else if l == y as usize {
            assert(rows.contains(y as usize));
        } else {
            if rows.contains(y as usize) {
                let k = choose|k: int| 0 <= k < rows.len() && rows[k] == y as usize;
                if k < r.len() {
                    assert(r[k] == rows[k]);
                }
                assert(false);
            }
        }
    } else {
        assert(!rows.contains(y as usize));
    }
}

/// Between two rows the count grows by at most the number of rows crossed.
pub proof fn lemma_count_mono(rows: Seq<usize>, a: int, b: int)
    requires
        rows.no_duplicates(),
        0 <= a <= b <= usize::MAX,
    ensures
        0 <= count_below(rows, b) - count_below(rows, a) <= b - a,
    decreases b - a,
{
    if a < b {
        lemma_count_mono(rows, a, b - 1);
        lemma_count_step(rows, b - 1);
    }
}

/// `rows` lists, in ascending order, exactly the full rows of `b`.
pub open spec fn lists_full_rows(b: Board, rows: Seq<usize>) -> bool {
    &&& forall|i: int, j: int| 0 <= i < j < rows.len() ==> rows[i] < rows[j]
    &&& forall|i: int|
        0 <= i < rows.len() ==> (#[trigger] rows[i] as int) < b.height && b.row_full(rows[i] as int)
    &&& forall|y: int| 0 <= y < b.height && #[trigger] b.row_full(y) ==> exists|i: int|
        0 <= i < rows.len() && rows[i] == y
}

/// `after` is `before` with the listed rows emptied.
pub open spec fn rows_cleared(before: Board, after: Board, rows: Seq<usize>) -> bool {
    &&& before.same_dims(&after)
    &&& forall|x: int, y: int|
        #![trigger after.cell(x, y)]
        before.in_bounds(x, y) ==> after.cell(x, y) == if rows.contains(y as usize) {
            None
        } else {
            before.cell(x, y)
        }
}

/// `after` is `before` with the listed rows taken out: every other row
/// moves down by the number of listed rows beneath it, and empty rows fill
/// the top.
pub open spec fn rows_compacted(before: Board, after: Board, rows: Seq<usize>) -> bool {
    &&& before.same_dims(&after)
    &&& forall|x: int, y: int|
        #![trigger before.cell(x, y)]
        before.in_bounds(x, y) && !rows.contains(y as usize) ==> after.cell(
            x,
            y - count_below(rows, y),
        ) == before.cell(x, y)
    &&& forall|x: int, y: int|
        #![trigger after.cell(x, y)]
        before.in_bounds(x, y) && y >= before.height - rows.len() ==> after.cell(x, y) is None
}

/// Writes `block` at every listed point inside the grid; points above the
/// top row are dropped.
pub fn place_blocks(b: &mut Board, pts: &Vec<Point>, block: Block)
    requires
        old(b).wf(),
    ensures
        old(b).same_dims(final(b)),
        forall|x: int, y: int|
            #![trigger final(b).cell(x, y)]
            old(b).in_bounds(x, y) ==> final(b).cell(x, y) == if exists|i: int|
                0 <= i < pts@.len() && #[trigger] pts@[i].x == x && pts@[i].y == y {
                Some(block)
            } else {
                old(b).cell(x, y)
            },
{
    let ghost start = *b;
    let mut k: usize = 0;
    while k < pts.len()
        invariant
            start.wf(),
            start.same_dims(b),
            k <= pts@.len(),
            forall|x: int, y: int|
                #![trigger b.cell(x, y)]
                start.in_bounds(x, y) ==> b.cell(x, y) == if exists|i: int|
                    0 <= i < k && #[trigger] pts@[i].x == x && pts@[i].y == y {
                    Some(block)
                } else {
                    start.cell(x, y)
                },
        decreases pts@.len() - k,
    {
        let p = pts[k];
        if p.x >= 0 && p.y >= 0 && (p.x as usize) < b.width && (p.y as usize) < b.height {
            b.set_cell(p.x as usize, p.y as usize, Some(block));
        }
        proof {
            assert forall|x: int, y: int|
                #![trigger b.cell(x, y)]
                start.in_bounds(x, y) implies b.cell(x, y) == if exists|i: int|
                    0 <= i < k + 1 && #[trigger] pts@[i].x == x && pts@[i].y == y {
                    Some(block)
                } else {
                    start.cell(x, y)
                } by {
                if exists|i: int| 0 <= i < k + 1 && #[trigger] pts@[i].x == x && pts@[i].y == y {
                    if !(p.x == x && p.y == y) {
                        let i = choose|i: int| 0 <= i < k + 1 && #[trigger] pts@[i].x == x && pts@[i].y == y;
                        assert(i < k);
                    }
                }
            }
        }
        k += 1;
    }
}

proof fn lemma_ascending_ge_index(rows: Seq<usize>, i: int)
    requires
        forall|a: int, b: int| 0 <= a < b < rows.len() ==> rows[a] < rows[b],
        0 <= i < rows.len(),
    ensures
        rows[i] >= i,
    decreases i,
{
    if i > 0 {
        lemma_ascending_ge_index(rows, i - 1);
    }
}

/// A list of full rows names each row once, and so has at most as many
/// entries as the board has rows.
pub proof fn lemma_full_rows_valid(b: Board, rows: Seq<usize>)
    requires
        lists_full_rows(b, rows),
    ensures
        valid_rows(rows, b.height as int),
        rows.len() <= b.height,
{
    assert forall|i: int, j: int| 0 <= i < rows.len() && 0 <= j < rows.len() && i != j implies rows[i]
        != rows[j] by {
        if i < j {
            assert(rows[i] < rows[j]);
        } else {
            assert(rows[j] < rows[i]);
        }
    }
    if rows.len() > 0 {
        lemma_ascending_ge_index(rows, rows.len() - 1);
    }
}

/// The rows of the board that are full, in ascending order.
pub fn completed_lines(b: &Board) -> (rows: Vec<usize>)
    requires
        b.wf(),
    ensures
        lists_full_rows(*b, rows@),
{
    let mut rows: Vec<usize> = Vec::new();
    let mut y: usize = 0;
    while y < b.height
        invariant
            b.wf(),
            y <= b.height,
            forall|i: int, j: int| 0 <= i < j < rows@.len() ==> rows@[i] < rows@[j],
            forall|i: int|
                0 <= i < rows@.len() ==> (#[trigger] rows@[i] as int) < y && b.row_full(rows@[i] as int),
            forall|z: int| 0 <= z < y && #[trigger] b.row_full(z) ==> exists|i: int|
                0 <= i < rows@.len() && rows@[i] == z,
        decreases b.height - y,
    {
        if b.is_row_full(y) {
            let ghost before = rows@;
            rows.push(y);
            proof {
                assert(rows@[rows@.len() - 1] == y);
                assert forall|i: int| 0 <= i < before.len() implies rows@[i] == before[i] by {}
                assert forall|z: int| 0 <= z < y + 1 && #[trigger] b.row_full(z) implies exists|i: int|
                    0 <= i < rows@.len() && rows@[i] == z by {
                    if z < y {
                        let i = choose|i: int| 0 <= i < before.len() && before[i] == z;
                        assert(rows@[i] == z);
                    } else {
                        assert(rows@[rows@.len() - 1] == z);
                    }
                }
            }
        }
        y += 1;
    }
    rows
}

/// Whether `y` is listed in `rows`.
pub fn contains_row(rows: &Vec<usize>, y: usize) -> (r: bool)
    ensures
        r == rows@.contains(y),
{
    let mut i: usize = 0;
    while i < rows.len()
        invariant
            i <= rows@.len(),
            forall|j: int| 0 <= j < i ==> rows@[j] != y,
        decreases rows@.len() - i,
    {
        if rows[i] == y {
            return true;
        }
        i += 1;
    }
    false
}

/// Empties every listed row.
pub fn despawn_blocks(b: &mut Board, lines: &Vec<usize>)
    requires
        old(b).wf(),
        forall|i: int| 0 <= i < lines@.len() ==> (#[trigger] lines@[i] as int) < old(b).height,
    ensures
        rows_cleared(*old(b), *final(b), lines@),
{
    let ghost start = *b;
    let mut k: usize = 0;
    while k < lines.len()
        invariant
            start.wf(),
            start.same_dims(b),
            k <= lines@.len(),
            forall|i: int| 0 <= i < lines@.len() ==> (#[trigger] lines@[i] as int) < start.height,
            forall|x: int, y: int|
                #![trigger b.cell(x, y)]
                start.in_bounds(x, y) ==> b.cell(x, y) == if lines@.subrange(0, k as int).contains(
                    y as usize,
                ) {
                    None
                } else {
                    start.cell(x, y)
                },
        decreases lines@.len() - k,
    {
        let ghost prev = *b;
        b.clear_row(lines[k]);
        proof {
            let s0 = lines@.subrange(0, k as int);
            let s1 = lines@.subrange(0, k + 1);
            assert forall|y: int| 0 <= y < start.height implies #[trigger] s1.contains(y as usize) == (s0.contains(
                y as usize,
            ) || lines@[k as int] == y as usize) by {
                if s1.contains(y as usize) {
                    let j = choose|j: int| 0 <= j < s1.len() && s1[j] == y as usize;
                    if j < k {
                        assert(s0[j] == s1[j]);
                    }
                }
                if s0.contains(y as usize) {
                    let j = choose|j: int| 0 <= j < s0.len() && s0[j] == y as usize;
                    assert(s1[j] == s0[j]);
                }
                if lines@[k as int] == y as usize {
                    assert(s1[k as int] == lines@[k as int]);
                }
            }
        }
        k += 1;
    }
    assert(lines@.subrange(0, lines@.len() as int) == lines@);
}

/// Takes the listed rows out of the board: each other row moves down by
/// the number of listed rows beneath it, and the top fills with empty rows.
pub fn apply_gravity(b: &mut Board, removed_lines: &Vec<usize>)
    requires
        old(b).wf(),
        valid_rows(removed_lines@, old(b).height as int),
    ensures
        rows_compacted(*old(b), *final(b), removed_lines@),
{
    let ghost start = *b;
    let ghost rows = removed_lines@;
    let h = b.height;
    let mut dst: usize = 0;
    let mut src: usize = 0;
    proof {
        lemma_count_zero(rows);
    }
    while src < h
        invariant
            start.wf(),
            start.same_dims(b),
            h == start.height,
            rows == removed_lines@,
            valid_rows(rows, h as int),
            src <= h,
            dst == src - count_below(rows, src as int),
            forall|x: int, y: int|
                #![trigger start.cell(x, y)]
                start.in_bounds(x, y) && y < src && !rows.contains(y as usize) ==> b.cell(
                    x,
                    y - count_below(rows, y),
                ) == start.cell(x, y),
            forall|x: int, y: int|
                #![trigger b.cell(x, y)]
                start.in_bounds(x, y) && y >= src ==> b.cell(x, y) == start.cell(x, y),
        decreases h - src,
    {
        proof {
            lemma_count_zero(rows);
            lemma_count_step(rows, src as int);
            lemma_count_mono(rows, 0, src as int);
        }
        if !contains_row(removed_lines, src) {
            let ghost prev = *b;
            if dst != src {
                b.copy_row(src, dst);
            }
            proof {
                assert forall|x: int, y: int|
                    #![trigger start.cell(x, y)]
                    start.in_bounds(x, y) && y < src + 1 && !rows.contains(y as usize) implies b.cell(
                    x,
                    y - count_below(rows, y),
                ) == start.cell(x, y) by {
                    if y < src {
                        lemma_count_step(rows, y);
                        lemma_count_mono(rows, y + 1, src as int);
                        lemma_count_mono(rows, 0, y);
                        assert(prev.cell(x, y - count_below(rows, y)) == start.cell(x, y));
                    } else {
                        assert(prev.cell(x, src as int) == start.cell(x, y));
                    }
                }
            }
            dst += 1;
        }
        src += 1;
    }
    proof {
        lemma_count_all(rows, h as int);
    }
    let mut y = dst;
    while y < h
        invariant
            start.wf(),
            start.same_dims(b),
            h == start.height,
            valid_rows(rows, h as int),
            dst == h - rows.len(),
            dst <= y <= h,
            forall|x: int, z: int|
                #![trigger start.cell(x, z)]
                start.in_bounds(x, z) && !rows.contains(z as usize) ==> b.cell(
                    x,
                    z - count_below(rows, z),
                ) == start.cell(x, z),
            forall|x: int, z: int|
                #![trigger b.cell(x, z)]
                start.in_bounds(x, z) && dst <= z < y ==> b.cell(x, z) is None,
        decreases h - y,
    {
        let ghost prev = *b;
        b.clear_row(y);
        proof {
            assert forall|x: int, z: int|
                #![trigger start.cell(x, z)]
                start.in_bounds(x, z) && !rows.contains(z as usize) implies b.cell(
                x,
                z - count_below(rows, z),
            ) == start.cell(x, z) by {
                lemma_count_zero(rows);
                lemma_count_all(rows, h as int);
                lemma_count_step(rows, z);
                lemma_count_mono(rows, z + 1, h as int);
                lemma_count_mono(rows, 0, z);
                assert(prev.cell(x, z - count_below(rows, z)) == start.cell(x, z));
            }
        }
        y += 1;
    }
}

/// Clears the listed rows, then takes them out of the board.
pub fn remove_lines(b: &mut Board, completed: &Vec<usize>)
    requires
        old(b).wf(),
        valid_rows(completed@, old(b).height as int),
    ensures
        rows_compacted(*old(b), *final(b), completed@),
{
    let ghost start = *b;
    despawn_blocks(b, completed);
    let ghost mid = *b;
    apply_gravity(b, completed);
    proof {
        assert forall|x: int, y: int|
            #![trigger start.cell(x, y)]
            start.in_bounds(x, y) && !completed@.contains(y as usize) implies b.cell(
            x,
            y - count_below(completed@, y),
        ) == start.cell(x, y) by {
            assert(mid.cell(x, y) == start.cell(x, y));
        }
    }
}

} // verus!
