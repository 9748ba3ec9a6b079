//! Occupancy matrices of the pieces and the quarter-turn operators on them.
//!
//! A matrix is stored in a 4x4 grid of cells; cell `(r, c)` sits at index
//! `r * 4 + c`. `r` is the column offset (to the right) and `c` the row
//! offset (upwards) of the cell inside the piece's bounding box. Only the
//! top-left `size x size` corner is used: size 3 for most pieces, 4 for
//! the I and O pieces.
use vstd::prelude::*;

verus! {

/// Side of the stored grid.
pub const GRID: usize = 4;

/// Number of cells of the stored grid.
pub const GRID_CELLS: usize = 16;

/// A square occupancy matrix of side `size` (3 or 4).
#[derive(Clone, Copy)]
pub struct Shape {
    pub size: usize,
    pub cells: [bool; 16],
}

/// The cell at index `i` of a grid holds `(i / 4, i % 4)`.
pub open spec fn row_of(i: int) -> int {
    i / 4
}

pub open spec fn col_of(i: int) -> int {
    i % 4
}

/// Cells of a quarter turn clockwise of the `n x n` matrix `s`: the new
/// cell `(r, c)` is the old cell `(n - 1 - c, r)`.
#[verifier::opaque]
pub open spec fn cw_cells(n: int, s: Seq<bool>) -> Seq<bool> {
    Seq::new(
        16,
        |i: int|
            if row_of(i) < n && col_of(i) < n {
                s[(n - 1 - col_of(i)) * 4 + row_of(i)]
            } else {
                false
            },
    )
}

/// Cells of a quarter turn counter-clockwise of the `n x n` matrix `s`: the
/// new cell `(r, c)` is the old cell `(c, n - 1 - r)`.
#[verifier::opaque]
pub open spec fn ccw_cells(n: int, s: Seq<bool>) -> Seq<bool> {
    Seq::new(
        16,
        |i: int|
            if row_of(i) < n && col_of(i) < n {
                s[col_of(i) * 4 + (n - 1 - row_of(i))]
            } else {
                false
            },
    )
}

/// `k` clockwise quarter turns.
pub open spec fn cw_pow(n: int, s: Seq<bool>, k: nat) -> Seq<bool>
    decreases k,
{
    if k == 0 {
        s
    } else {
        cw_cells(n, cw_pow(n, s, (k - 1) as nat))
    }
}

/// A grid of 16 cells whose cells outside the `n x n` corner are empty.
pub open spec fn grid_wf(n: int, s: Seq<bool>) -> bool {
    &&& (n == 3 || n == 4)
    &&& s.len() == 16
    &&& forall|i: int| 0 <= i < 16 && !(row_of(i) < n && col_of(i) < n) ==> !#[trigger] s[i]
}

/// The mathematical content of a matrix: its side and its 16 cells.
pub struct Grid {
    pub size: int,
    pub cells: Seq<bool>,
}

impl Grid {
    /// Whether cell `(r, c)` of the matrix is occupied.
    pub open spec fn at(&self, r: int, c: int) -> bool {
        0 <= r < self.size && 0 <= c < self.size && self.cells[r * 4 + c]
    }

    pub open spec fn turned(&self, clockwise: bool) -> Grid {
        Grid {
            size: self.size,
            cells: if clockwise {
                cw_cells(self.size, self.cells)
            } else {
                ccw_cells(self.size, self.cells)
            },
        }
    }
}

impl View for Shape {
    type V = Grid;

    open spec fn view(&self) -> Grid {
        Grid { size: self.size as int, cells: self.cells@ }
    }
}

impl Shape {
    pub open spec fn wf(&self) -> bool {
        grid_wf(self.size as int, self.cells@)
    }

    /// Whether cell `(r, c)` of the matrix is occupied.
    pub open spec fn at(&self, r: int, c: int) -> bool {
        0 <= r < self.size && 0 <= c < self.size && self.cells@[r * 4 + c]
    }

    /// The matrix turned a quarter clockwise.
    pub fn rotate_clockwise(&self) -> (out: Shape)
        requires
            self.wf(),
        ensures
            out.size == self.size,
            out.cells@ == cw_cells(self.size as int, self.cells@),
            out.wf(),
    {
        proof {
            reveal(cw_cells);
        }
        let n = self.size;
        let mut cells = [false; 16];
        let mut i: usize = 0;
        while i < GRID_CELLS
            invariant
                n == self.size,
                n == 3 || n == 4,
                i <= 16,
                forall|j: int| 0 <= j < i ==> cells@[j] == cw_cells(n as int, self.cells@)[j],
            decreases 16 - i,
        {
            proof {
                reveal(cw_cells);
            }
            let r = i / GRID;
            let c = i % GRID;
            if r < n && c < n {
                cells[i] = self.cells[(n - 1 - c) * GRID + r];
            } else {
                cells[i] = false;
            }
            i += 1;
        }
        let out = Shape { size: n, cells };
        proof {
            reveal(cw_cells);
        }
        assert(out.cells@ =~= cw_cells(n as int, self.cells@));
        out
    }

    /// The matrix turned a quarter counter-clockwise.
    pub fn rotate_counter_clockwise(&self) -> (out: Shape)
        requires
            self.wf(),
        ensures
            out.size == self.size,
            out.cells@ == ccw_cells(self.size as int, self.cells@),
            out.wf(),
    {
        proof {
            reveal(ccw_cells);
        }
        let n = self.size;
        let mut cells = [false; 16];
        let mut i: usize = 0;
        while i < GRID_CELLS
            invariant
                n == self.size,
                n == 3 || n == 4,
                i <= 16,
                forall|j: int| 0 <= j < i ==> cells@[j] == ccw_cells(n as int, self.cells@)[j],
            decreases 16 - i,
        {
            proof {
                reveal(ccw_cells);
            }
            let r = i / GRID;
            let c = i % GRID;
            if r < n && c < n {
                cells[i] = self.cells[c * GRID + (n - 1 - r)];
            } else {
                cells[i] = false;
            }
            i += 1;
        }
        let out = Shape { size: n, cells };
        proof {
            reveal(ccw_cells);
        }
        assert(out.cells@ =~= ccw_cells(n as int, self.cells@));
        out
    }
}

/// Index arithmetic of the grid: `(a, b)` is stored at `a * 4 + b`.
pub proof fn lemma_pack(a: int, b: int)
    requires
        0 <= a < 4,
        0 <= b < 4,
    ensures
        row_of(a * 4 + b) == a,
        col_of(a * 4 + b) == b,
{
}

pub proof fn lemma_unpack(i: int)
    requires
        0 <= i < 16,
    ensures
        i == row_of(i) * 4 + col_of(i),
        0 <= row_of(i) < 4,
        0 <= col_of(i) < 4,
{
}

/// A counter-clockwise quarter turn undoes a clockwise one, and the other
/// way round.
pub proof fn lemma_turns_cancel(n: int, s: Seq<bool>)
    requires
        grid_wf(n, s),
    ensures
        ccw_cells(n, cw_cells(n, s)) == s,
        cw_cells(n, ccw_cells(n, s)) == s,
        grid_wf(n, cw_cells(n, s)),
        grid_wf(n, ccw_cells(n, s)),
{
    reveal(cw_cells);
    reveal(ccw_cells);
    let a = cw_cells(n, s);
    let b = ccw_cells(n, s);
    assert forall|i: int| 0 <= i < 16 implies ccw_cells(n, a)[i] == s[i] && cw_cells(n, b)[i]
        == s[i] by {
        lemma_unpack(i);
        let r = row_of(i);
        let c = col_of(i);
        if r < n && c < n {
            lemma_pack(c, n - 1 - r);
            lemma_pack(n - 1 - c, r);
        }
    }
    assert(ccw_cells(n, a) =~= s);
    assert(cw_cells(n, b) =~= s);
}

/// Three clockwise quarter turns are one counter-clockwise turn.
pub proof fn lemma_three_turns(n: int, s: Seq<bool>)
    requires
        grid_wf(n, s),
    ensures
        cw_cells(n, cw_cells(n, cw_cells(n, s))) == ccw_cells(n, s),
{
    reveal(cw_cells);
    reveal(ccw_cells);
    let x = cw_cells(n, s);
    let y = cw_cells(n, x);
    assert forall|i: int| 0 <= i < 16 implies cw_cells(n, y)[i] == ccw_cells(n, s)[i] by {
        lemma_unpack(i);
        let r = row_of(i);
        let c = col_of(i);
        if r < n && c < n {
            lemma_pack(n - 1 - c, r);
            lemma_pack(n - 1 - r, n - 1 - c);
            lemma_pack(c, n - 1 - r);
        }
    }
    assert(cw_cells(n, y) =~= ccw_cells(n, s));
}

/// Four clockwise quarter turns give the matrix back, and `k` turns
/// followed by a counter-clockwise turn are `k - 1` turns (mod 4).
pub proof fn lemma_four_turns(n: int, s: Seq<bool>)
    requires
        grid_wf(n, s),
    ensures
        cw_pow(n, s, 4) == s,
        grid_wf(n, cw_pow(n, s, 1)),
        grid_wf(n, cw_pow(n, s, 2)),
        grid_wf(n, cw_pow(n, s, 3)),
{
    lemma_turns_cancel(n, s);
    let a = cw_cells(n, s);
    lemma_turns_cancel(n, a);
    let b = cw_cells(n, a);
    lemma_turns_cancel(n, b);
    lemma_three_turns(n, s);
    assert(cw_pow(n, s, 0) == s);
    assert(cw_pow(n, s, 1) == a);
    assert(cw_pow(n, s, 2) == b);
    assert(cw_pow(n, s, 3) == ccw_cells(n, s));
    assert(cw_pow(n, s, 4) == cw_cells(n, ccw_cells(n, s)));
}

/// Rotation states `0..4` of a matrix: a clockwise turn goes to the next
/// state and a counter-clockwise turn to the previous one, mod 4.
pub proof fn lemma_pow_states(n: int, b: Seq<bool>, rot: int)
    requires
        grid_wf(n, b),
        0 <= rot < 4,
    ensures
        cw_cells(n, cw_pow(n, b, rot as nat)) == cw_pow(n, b, ((rot + 1) % 4) as nat),
        ccw_cells(n, cw_pow(n, b, rot as nat)) == cw_pow(n, b, ((rot + 3) % 4) as nat),
        grid_wf(n, cw_pow(n, b, rot as nat)),
{
    assert(cw_pow(n, b, 0) == b);
    let once = cw_pow(n, b, 1);
    let twice = cw_pow(n, b, 2);
    let thrice = cw_pow(n, b, 3);
    assert(once == cw_cells(n, b));
    assert(twice == cw_cells(n, once));
    assert(thrice == cw_cells(n, twice));
    lemma_four_turns(n, b);
    if rot == 0 {
        lemma_three_turns(n, b);
    } else if rot == 1 {
        lemma_turns_cancel(n, b);
    } else if rot == 2 {
        lemma_turns_cancel(n, once);
    } else {
        lemma_turns_cancel(n, twice);
    }
}

/// Some cell of the grid is occupied.
pub open spec fn has_cell(s: Seq<bool>) -> bool {
    exists|i: int| 0 <= i < 16 && #[trigger] s[i]
}

/// Turning keeps a matrix non-empty.
pub proof fn lemma_pow_has_cell(n: int, s: Seq<bool>, k: nat)
    requires
        grid_wf(n, s),
        has_cell(s),
    ensures
        has_cell(cw_pow(n, s, k)),
        grid_wf(n, cw_pow(n, s, k)),
    decreases k,
{
    if k > 0 {
        lemma_pow_has_cell(n, s, (k - 1) as nat);
        let p = cw_pow(n, s, (k - 1) as nat);
        lemma_turns_cancel(n, p);
        reveal(cw_cells);
        let i = choose|i: int| 0 <= i < 16 && #[trigger] p[i];
        lemma_unpack(i);
        let a = row_of(i);
        let b = col_of(i);
        lemma_pack(b, n - 1 - a);
        lemma_pack(a, b);
        let j = b * 4 + (n - 1 - a);
        assert(cw_cells(n, p)[j]);
    }
}

} // verus!
