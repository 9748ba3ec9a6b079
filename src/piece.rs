//! Piece kinds, the catalog of their spawn matrices, and the active piece.
use vstd::prelude::*;
use crate::shape::{
    Shape, Grid, cw_pow, cw_cells, ccw_cells, grid_wf, row_of, col_of, lemma_pack, lemma_unpack,
    lemma_four_turns, lemma_pow_states, lemma_pow_has_cell,
};

verus! {

/// Columns of the well.
pub const WELL_WIDTH: usize = 10;

/// Visible rows of the well; row 0 is the floor.
pub const WELL_HEIGHT: usize = 22;

/// Bound on either coordinate of a piece's position.
pub const POS_LIMIT: i32 = 1000000;

/// Number of piece kinds.
pub const KIND_COUNT: usize = 7;

#[derive(Clone, Copy, PartialEq, Eq, Structural, Debug, Hash)]
pub enum TetrominoType {
    J,
    L,
    S,
    T,
    Z,
    I,
    O,
}

/// A lattice point of the well: `x` counts columns from the left wall,
/// `y` rows up from the floor.
#[derive(Clone, Copy, PartialEq, Eq, Structural, Debug)]
pub struct Point {
    pub x: i32,
    pub y: i32,
}

pub open spec fn in_range(p: Point) -> bool {
    -POS_LIMIT <= p.x <= POS_LIMIT && -POS_LIMIT <= p.y <= POS_LIMIT
}

/// Position of each kind in the catalog, and in the placement statistics.
pub open spec fn kind_index_spec(k: TetrominoType) -> int {
    match k {
        TetrominoType::J => 0,
        TetrominoType::L => 1,
        TetrominoType::S => 2,
        TetrominoType::T => 3,
        TetrominoType::Z => 4,
        TetrominoType::I => 5,
        TetrominoType::O => 6,
    }
}

pub open spec fn kind_at(i: int) -> TetrominoType {
    if i == 0 {
        TetrominoType::J
    } else if i == 1 {
        TetrominoType::L
    } else if i == 2 {
        TetrominoType::S
    } else if i == 3 {
        TetrominoType::T
    } else if i == 4 {
        TetrominoType::Z
    } else if i == 5 {
        TetrominoType::I
    } else {
        TetrominoType::O
    }
}

pub fn kind_index(k: TetrominoType) -> (r: usize)
    ensures
        r == kind_index_spec(k),
        r < KIND_COUNT,
        kind_at(r as int) == k,
{
    match k {
        TetrominoType::J => 0,
        TetrominoType::L => 1,
        TetrominoType::S => 2,
        TetrominoType::T => 3,
        TetrominoType::Z => 4,
        TetrominoType::I => 5,
        TetrominoType::O => 6,
    }
}

/// The kind at position `i` of the catalog.
pub fn kind_from_index(i: usize) -> (k: TetrominoType)
    requires
        i < KIND_COUNT,
    ensures
        k == kind_at(i as int),
        kind_index_spec(k) == i,
{
    if i == 0 {
        TetrominoType::J
    } else if i == 1 {
        TetrominoType::L
    } else if i == 2 {
        TetrominoType::S
    } else if i == 3 {
        TetrominoType::T
    } else if i == 4 {
        TetrominoType::Z
    } else if i == 5 {
        TetrominoType::I
    } else {
        TetrominoType::O
    }
}

/// Side of a kind's matrix (its bounding width).
pub open spec fn kind_size(k: TetrominoType) -> int {
    match k {
        TetrominoType::I | TetrominoType::O => 4,
        _ => 3,
    }
}

/// Grid indices (`r * 4 + c`) of the occupied cells in spawn orientation.
pub open spec fn base_indices(k: TetrominoType) -> Set<int> {
    match k {
        TetrominoType::J => set![1, 2, 5, 9],
        TetrominoType::L => set![1, 5, 9, 10],
        TetrominoType::S => set![1, 5, 6, 10],
        TetrominoType::T => set![1, 5, 6, 9],
        TetrominoType::Z => set![2, 5, 6, 9],
        TetrominoType::I => set![2, 6, 10, 14],
        TetrominoType::O => set![6, 7, 10, 11],
    }
}

/// The spawn-orientation matrix of a kind.
pub open spec fn base_cells(k: TetrominoType) -> Seq<bool> {
    Seq::new(16, |i: int| base_indices(k).contains(i))
}

/// The matrix of a kind in rotation state `rot`: `rot` clockwise quarter
/// turns of the spawn matrix. The O piece never turns.
pub open spec fn shape_at(k: TetrominoType, rot: int) -> Seq<bool> {
    if k == TetrominoType::O {
        base_cells(k)
    } else {
        cw_pow(kind_size(k), base_cells(k), rot as nat)
    }
}

/// Where a piece of bounding width `w` appears: centred in the well, its
/// box reaching above the top row.
pub open spec fn spawn_x(w: int) -> int {
    (WELL_WIDTH as int - w) / 2
}

pub open spec fn spawn_y(w: int) -> int {
    WELL_HEIGHT as int - (w + 1) / 2
}

/// Grid index, within a box whose origin is `pos`, of the cell at `p`.
pub open spec fn grid_index(pos: Point, p: Point) -> int {
    (p.x - pos.x) * 4 + (p.y - pos.y)
}

/// Cell `(x, y)` of the well lies under the matrix `m` placed with its
/// box origin at `pos`.
pub open spec fn covers(m: Grid, pos: Point, x: int, y: int) -> bool {
    m.at(x - pos.x, y - pos.y)
}

pub proof fn lemma_base_wf(k: TetrominoType)
    ensures
        grid_wf(kind_size(k), base_cells(k)),
{
    assert forall|i: int|
        0 <= i < 16 && !(row_of(i) < kind_size(k) && col_of(i) < kind_size(k)) implies !#[trigger] base_cells(
        k,
    )[i] by {
        lemma_unpack(i);
    }
}

/// Every rotation state of every kind is a well-formed matrix, and the
/// states cycle with period four.
pub proof fn lemma_shape_at(k: TetrominoType, rot: int)
    requires
        0 <= rot < 4,
    ensures
        grid_wf(kind_size(k), shape_at(k, rot)),
        shape_at(k, 0) == base_cells(k),
{
    lemma_base_wf(k);
    lemma_four_turns(kind_size(k), base_cells(k));
}

/// A clockwise quarter turn moves a kind's matrix to the next rotation
/// state, a counter-clockwise one to the previous state (mod 4).
pub proof fn lemma_rotation_states(k: TetrominoType, rot: int)
    requires
        0 <= rot < 4,
        k != TetrominoType::O,
    ensures
        cw_cells(kind_size(k), shape_at(k, rot)) == shape_at(k, (rot + 1) % 4),
        ccw_cells(kind_size(k), shape_at(k, rot)) == shape_at(k, (rot + 3) % 4),
{
    lemma_base_wf(k);
    lemma_pow_states(kind_size(k), base_cells(k), rot);
}

/// Every piece covers at least one cell.
pub proof fn lemma_piece_has_cell(t: Tetromino)
    requires
        t.wf(),
    ensures
        exists|x: int, y: int| #[trigger] covers(t.mat@, t.pos, x, y),
{
    let k = t.kind;
    let n = kind_size(k);
    let b = base_cells(k);
    lemma_base_wf(k);
    let w: int = match k {
        TetrominoType::Z | TetrominoType::I => 2,
        TetrominoType::O => 6,
        _ => 1,
    };
    assert(b[w]);
    lemma_pow_has_cell(n, b, t.rot_index as nat);
    let s = t.mat.cells@;
    let i = choose|i: int| 0 <= i < 16 && #[trigger] s[i];
    lemma_unpack(i);
    assert(covers(t.mat@, t.pos, t.pos.x + row_of(i), t.pos.y + col_of(i)));
}

/// The spawn matrix of a kind.
pub fn base_shape(k: TetrominoType) -> (m: Shape)
    ensures
        m.size == kind_size(k),
        m.cells@ == base_cells(k),
        m.wf(),
{
    proof {
        lemma_base_wf(k);
    }
    let m = match k {
        TetrominoType::J => Shape {
            size: 3,
            cells: [
                false, true, true, false,
                false, true, false, false,
                false, true, false, false,
                false, false, false, false,
            ],
        },
        TetrominoType::L => Shape {
            size: 3,
            cells: [
                false, true, false, false,
                false, true, false, false,
                false, true, true, false,
                false, false, false, false,
            ],
        },
        TetrominoType::S => Shape {
            size: 3,
            cells: [
                false, true, false, false,
                false, true, true, false,
                false, false, true, false,
                false, false, false, false,
            ],
        },
        TetrominoType::T => Shape {
            size: 3,
            cells: [
                false, true, false, false,
                false, true, true, false,
                false, true, false, false,
                false, false, false, false,
            ],
        },
        TetrominoType::Z => Shape {
            size: 3,
            cells: [
                false, false, true, false,
                false, true, true, false,
                false, true, false, false,
                false, false, false, false,
            ],
        },
        TetrominoType::I => Shape {
            size: 4,
            cells: [
                false, false, true, false,
                false, false, true, false,
                false, false, true, false,
                false, false, true, false,
            ],
        },
        TetrominoType::O => Shape {
            size: 4,
            cells: [
                false, false, false, false,
                false, false, true, true,
                false, false, true, true,
                false, false, false, false,
            ],
        },
    };
    assert(m.cells@ =~= base_cells(k));
    m
}

/// The spawn position of a piece of bounding width `w`.
pub fn spawn_position(w: usize) -> (p: Point)
    requires
        w == 3 || w == 4,
    ensures
        p.x == spawn_x(w as int),
        p.y == spawn_y(w as int),
        in_range(p),
{
    Point { x: ((WELL_WIDTH - w) / 2) as i32, y: (WELL_HEIGHT - (w + 1) / 2) as i32 }
}

/// The falling piece: its kind and rotation state, where its bounding box
/// stands, where it spawned, and the timers and flags of the lock cycle.
#[derive(Clone, Copy)]
pub struct Tetromino {
    pub pos: Point,
    pub spawn_pos: Point,
    pub rot_index: usize,
    pub mat: Shape,
    pub width: usize,
    pub kind: TetrominoType,
    /// Frames spent resting while `locking`.
    pub lock_counter: u32,
    /// Frames since the piece became active, up to the entry delay.
    pub entry_timer: u32,
    pub locking: bool,
    /// Set by a hard drop: commit on contact, without lock delay.
    pub sonic_lock: bool,
    /// The piece came out of the hold slot, or went through it, this cycle.
    pub held: bool,
}

impl Tetromino {
    /// The matrix is the kind's matrix in the current rotation state, and
    /// the position stays within bounds.
    pub open spec fn wf(&self) -> bool {
        &&& self.rot_index < 4
        &&& self.mat.wf()
        &&& self.mat.size == kind_size(self.kind)
        &&& self.width == self.mat.size
        &&& self.mat.cells@ == shape_at(self.kind, self.rot_index as int)
        &&& (self.kind == TetrominoType::O ==> self.rot_index == 0)
        &&& in_range(self.pos)
        &&& self.spawn_pos.x == spawn_x(self.width as int)
        &&& self.spawn_pos.y == spawn_y(self.width as int)
    }

    /// In spawn orientation at the spawn position.
    pub open spec fn at_spawn(&self) -> bool {
        &&& self.wf()
        &&& self.rot_index == 0
        &&& self.pos == self.spawn_pos
    }

    /// A piece of kind `k` as it enters the well.
    pub open spec fn is_fresh(&self, k: TetrominoType) -> bool {
        &&& self.at_spawn()
        &&& self.kind == k
        &&& self.lock_counter == 0
        &&& self.entry_timer == 0
        &&& !self.locking
        &&& !self.sonic_lock
        &&& !self.held
    }

    /// A new piece of kind `k`, at its spawn position in spawn orientation.
    pub fn new(k: TetrominoType) -> (t: Tetromino)
        ensures
            t.is_fresh(k),
    {
        let mat = base_shape(k);
        let pos = spawn_position(mat.size);
        proof {
            lemma_shape_at(k, 0);
        }
        Tetromino {
            pos,
            spawn_pos: pos,
            rot_index: 0,
            mat,
            width: mat.size,
            kind: k,
            lock_counter: 0,
            entry_timer: 0,
            locking: false,
            sonic_lock: false,
            held: false,
        }
    }

    /// The absolute cells the piece covers with its box origin at `pos`,
    /// each once.
    pub fn relative_points(&self, pos: &Point) -> (pts: Vec<Point>)
        requires
            self.mat.wf(),
            in_range(*pos),
        ensures
            forall|i: int|
                0 <= i < pts@.len() ==> covers(self.mat@, *pos, #[trigger] pts@[i].x as int, pts@[i].y as int),
            forall|x: int, y: int|
                #[trigger] covers(self.mat@, *pos, x, y) ==> exists|i: int|
                    0 <= i < pts@.len() && #[trigger] pts@[i].x == x && pts@[i].y == y,
            pts@.no_duplicates(),
            pts@.len() <= 16,
    {
        let n = self.mat.size;
        let mut pts: Vec<Point> = Vec::new();
        let mut i: usize = 0;
        while i < 16
            invariant
                n == self.mat.size,
                self.mat.wf(),
                in_range(*pos),
                i <= 16,
                pts@.len() <= i,
                forall|j: int|
                    0 <= j < pts@.len() ==> 0 <= grid_index(*pos, #[trigger] pts@[j]) < i && covers(
                        self.mat@,
                        *pos,
                        pts@[j].x as int,
                        pts@[j].y as int,
                    ),
                forall|j1: int, j2: int|
                    0 <= j1 < j2 < pts@.len() ==> grid_index(*pos, #[trigger] pts@[j1]) < grid_index(
                        *pos,
                        #[trigger] pts@[j2],
                    ),
                forall|k: int|
                    0 <= k < i && row_of(k) < n && col_of(k) < n && #[trigger] self.mat.cells@[k]
                        ==> exists|j: int| 0 <= j < pts@.len() && grid_index(*pos, #[trigger] pts@[j]) == k,
            decreases 16 - i,
        {
            let r = i / 4;
            let c = i % 4;
            proof {
                lemma_unpack(i as int);
            }
            if r < n && c < n && self.mat.cells[i] {
                let p = Point { x: pos.x + r as i32, y: pos.y + c as i32 };
                assert(grid_index(*pos, p) == i);
                let ghost before = pts@;
                pts.push(p);
                proof {
                    assert(pts@[pts@.len() - 1] == p);
                    assert forall|j: int| 0 <= j < before.len() implies pts@[j] == before[j] by {}
                }
            }
            i += 1;
        }
        proof {
            assert forall|x: int, y: int| #[trigger] covers(self.mat@, *pos, x, y) implies exists|i: int|
                0 <= i < pts@.len() && #[trigger] pts@[i].x == x && pts@[i].y == y by {
                let k = (x - pos.x) * 4 + (y - pos.y);
                lemma_pack(x - pos.x, y - pos.y);
                assert(self.mat.cells@[k]);
                let j = choose|j: int| 0 <= j < pts@.len() && grid_index(*pos, #[trigger] pts@[j]) == k;
                lemma_pack(pts@[j].x - pos.x, pts@[j].y - pos.y);
            }
            assert forall|j1: int, j2: int|
                0 <= j1 < pts@.len() && 0 <= j2 < pts@.len() && j1 != j2 implies pts@[j1] != pts@[j2] by {
                if j1 < j2 {
                    assert(grid_index(*pos, pts@[j1]) < grid_index(*pos, pts@[j2]));
                } else {
                    assert(grid_index(*pos, pts@[j2]) < grid_index(*pos, pts@[j1]));
                }
            }
        }
        pts
    }
}

/// The projection of the active piece onto its landing spot; `dirty` marks
/// it for recomputation before it is read.
#[derive(Clone, Copy)]
pub struct GhostPiece {
    pub pos: Point,
    pub dirty: bool,
}

/// Turns a piece back to spawn orientation at its spawn position; its
/// kind, timers and flags stay.
pub fn reset_transform(t: &mut Tetromino)
    requires
        old(t).wf(),
    ensures
        final(t).at_spawn(),
        final(t).kind == old(t).kind,
        final(t).lock_counter == old(t).lock_counter,
        final(t).entry_timer == old(t).entry_timer,
        final(t).locking == old(t).locking,
        final(t).sonic_lock == old(t).sonic_lock,
        final(t).held == old(t).held,
{
    let mat = base_shape(t.kind);
    proof {
        lemma_shape_at(t.kind, 0);
    }
    t.mat = mat;
    t.rot_index = 0;
    t.pos = spawn_position(t.width);
}

/// One fresh piece of each kind, in catalog order.
pub fn tetromino_set() -> (set: Vec<Tetromino>)
    ensures
        set@.len() == KIND_COUNT,
        forall|i: int| 0 <= i < KIND_COUNT ==> (#[trigger] set@[i]).is_fresh(kind_at(i)),
{
    let mut set: Vec<Tetromino> = Vec::new();
    let mut i: usize = 0;
    while i < KIND_COUNT
        invariant
            i <= KIND_COUNT,
            set@.len() == i,
            forall|j: int| 0 <= j < i ==> (#[trigger] set@[j]).is_fresh(kind_at(j)),
        decreases KIND_COUNT - i,
    {
        set.push(Tetromino::new(kind_from_index(i)));
        i += 1;
    }
    set
}

} // verus!
