//! The game state and the per-frame state machine: spawning and the piece
//! queue, the ghost projection, gravity, locking and committing, line
//! clears, scoring, and hold.
use vstd::prelude::*;
use crate::board::{
    Block, Board, completed_lines, lists_full_rows, lemma_full_rows_valid, place_blocks, remove_lines, rows_compacted,
    valid_rows,
};
use crate::collision::{
    can_translate, resting, should_commit_tetromino, translate_ok, wall_hit, floor_hit,
};
use crate::piece::{
    GhostPiece, Point, Tetromino, TetrominoType, KIND_COUNT, POS_LIMIT, WELL_HEIGHT, WELL_WIDTH,
    covers, in_range, kind_at, kind_index, kind_index_spec, lemma_piece_has_cell, reset_transform,
    tetromino_set,
};
use crate::random::random_below;
use crate::srs::{rotate, rotation_target, turned_to};
use crate::scoring::{calculate_score, get_level_gravity_max, level_for, level_for_lines, score_for};

verus! {

/// Frames a resting piece waits before it commits.
pub const LOCK_DELAY: u32 = 30;

/// Frames a new piece waits before gravity moves it.
pub const ENTRY_DELAY: u32 = 20;

/// Frames between the detection of full rows and their removal.
pub const LINE_CLEAR_DELAY: u32 = 20;

/// Frames a score popup stays up.
pub const SCORE_TIMEOUT: u32 = 60;

/// Gravity threshold, in frames, while soft drop is held.
pub const SOFT_DROP_GRAVITY: u32 = 5;

/// Length of the queue of next pieces.
pub const NEXT_COUNT: usize = 10;

pub struct Score {
    pub level: usize,
    pub lines: usize,
    pub val: u64,
    pub topout: bool,
}

/// Frames counted since the last gravity step, and the count that triggers
/// the next one.
pub struct Gravity {
    pub meter: u32,
    pub max: u32,
}

/// Full rows waiting for removal.
pub struct LineClear {
    pub y_pos: usize,
    pub lines: Vec<usize>,
    pub counter: u32,
}

/// The points of the last clear, shown for a while.
pub struct ScorePopup {
    pub val: u64,
    pub creation: u32,
}

/// The last action of the player that changed the piece.
#[derive(Clone, Copy, PartialEq, Eq, Structural, Debug)]
pub enum FrameInput {
    Idle,
    Move,
    Rotate,
}

pub struct GameState {
    pub debug: bool,
    pub placed_blocks: Board,
    pub next: Vec<Tetromino>,
    pub current: Tetromino,
    pub ghost_piece: GhostPiece,
    /// One fresh piece of each kind, the catalog the queue draws from.
    pub tetrominos: Vec<Tetromino>,
    pub score: Score,
    pub gravity: Gravity,
    pub hold: Option<Tetromino>,
    /// Pieces committed, per kind in catalog order.
    pub statistics: Vec<u64>,
    pub line_clear: Option<LineClear>,
    pub last_score: ScorePopup,
    pub last_input: FrameInput,
}

/// `t` is one of the catalog's pieces.
pub open spec fn from_catalog(cat: Seq<Tetromino>, t: Tetromino) -> bool {
    exists|i: int| 0 <= i < cat.len() && cat[i] == t
}

/// The ghost, when clean, stands below the piece, inside the well.
pub open spec fn ghost_ok(g: GhostPiece, t: Tetromino) -> bool {
    !g.dirty ==> {
        &&& in_range(g.pos)
        &&& g.pos.x == t.pos.x
        &&& !wall_hit(t.mat@, g.pos)
    }
}

impl GameState {
    pub open spec fn wf(&self) -> bool {
        &&& self.placed_blocks.wf()
        &&& self.placed_blocks.width == WELL_WIDTH
        &&& self.placed_blocks.height == WELL_HEIGHT
        &&& self.current.wf()
        &&& !wall_hit(self.current.mat@, self.current.pos)
        &&& ghost_ok(self.ghost_piece, self.current)
        &&& self.tetrominos@.len() == KIND_COUNT
        &&& forall|i: int| 0 <= i < KIND_COUNT ==> (#[trigger] self.tetrominos@[i]).is_fresh(kind_at(i))
        &&& self.next@.len() == NEXT_COUNT
        &&& forall|i: int|
            0 <= i < NEXT_COUNT ==> from_catalog(self.tetrominos@, #[trigger] self.next@[i])
        &&& (self.hold matches Some(h) ==> h.at_spawn())
        &&& self.statistics@.len() == KIND_COUNT
        &&& self.score.level == level_for(self.score.lines as int)
        &&& (self.line_clear matches Some(lc) ==> valid_rows(lc.lines@, WELL_HEIGHT as int))
    }
}

/// A piece of the catalog, drawn at random.
pub fn spawn_tetromino(tetrominos: &Vec<Tetromino>) -> (t: Tetromino)
    requires
        1 <= tetrominos@.len() <= 65536,
    ensures
        from_catalog(tetrominos@, t),
{
    let i = random_below(tetrominos.len());
    tetrominos[i]
}

/// `amount` pieces of the catalog, drawn at random.
pub fn random_tetrominos(tetrominos: &Vec<Tetromino>, amount: usize) -> (r: Vec<Tetromino>)
    requires
        1 <= tetrominos@.len() <= 65536,
    ensures
        r@.len() == amount,
        forall|i: int| 0 <= i < amount ==> from_catalog(tetrominos@, #[trigger] r@[i]),
{
    let mut r: Vec<Tetromino> = Vec::new();
    let mut k: usize = 0;
    while k < amount
        invariant
            1 <= tetrominos@.len() <= 65536,
            k <= amount,
            r@.len() == k,
            forall|i: int| 0 <= i < k ==> from_catalog(tetrominos@, #[trigger] r@[i]),
        decreases amount - k,
    {
        let t = spawn_tetromino(tetrominos);
        r.push(t);
        assert(r@[k as int] == t);
        k += 1;
    }
    r
}

proof fn lemma_catalog_fresh(cat: Seq<Tetromino>, t: Tetromino)
    requires
        cat.len() == KIND_COUNT,
        forall|i: int| 0 <= i < KIND_COUNT ==> (#[trigger] cat[i]).is_fresh(kind_at(i)),
        from_catalog(cat, t),
    ensures
        t.is_fresh(t.kind),
{
    let i = choose|i: int| 0 <= i < cat.len() && cat[i] == t;
    assert(cat[i].is_fresh(kind_at(i)));
}

/// A game at its start, with `current` as the active piece and `next` as
/// the queue: an empty board, level 0, nothing held.
pub fn new_game(tetrominos: Vec<Tetromino>, current: Tetromino, next: Vec<Tetromino>) -> (gs: GameState)
    requires
        tetrominos@.len() == KIND_COUNT,
        forall|i: int| 0 <= i < KIND_COUNT ==> (#[trigger] tetrominos@[i]).is_fresh(kind_at(i)),
        from_catalog(tetrominos@, current),
        next@.len() == NEXT_COUNT,
        forall|i: int| 0 <= i < NEXT_COUNT ==> from_catalog(tetrominos@, #[trigger] next@[i]),
    ensures
        gs.wf(),
        gs.placed_blocks.is_empty(),
        gs.current == current,
        gs.next@ == next@,
        gs.tetrominos@ == tetrominos@,
        gs.ghost_piece.dirty,
        gs.hold is None,
        gs.score.level == 0 && gs.score.lines == 0 && gs.score.val == 0 && !gs.score.topout,
        gs.gravity.meter == 0,
        gs.gravity.max == 48,
        forall|i: int| 0 <= i < KIND_COUNT ==> #[trigger] gs.statistics@[i] == 0,
        gs.line_clear is None,
        gs.last_score.val == 0 && gs.last_score.creation == 0,
        gs.last_input == FrameInput::Idle,
        !gs.debug,
{
    proof {
        lemma_catalog_fresh(tetrominos@, current);
    }
    let mut statistics: Vec<u64> = Vec::new();
    let mut k: usize = 0;
    while k < KIND_COUNT
        invariant
            k <= KIND_COUNT,
            statistics@.len() == k,
            forall|i: int| 0 <= i < k ==> #[trigger] statistics@[i] == 0,
        decreases KIND_COUNT - k,
    {
        statistics.push(0);
        k += 1;
    }
    let ghost_pos = current.pos;
    GameState {
        debug: false,
        placed_blocks: Board::new(WELL_WIDTH, WELL_HEIGHT),
        next,
        current,
        ghost_piece: GhostPiece { pos: ghost_pos, dirty: true },
        tetrominos,
        score: Score { level: 0, lines: 0, val: 0, topout: false },
        gravity: Gravity { meter: 0, max: get_level_gravity_max(0) },
        hold: None,
        statistics,
        line_clear: None,
        last_score: ScorePopup { val: 0, creation: 0 },
        last_input: FrameInput::Idle,
    }
}

/// `after` is `before` with only the queue, the ghost flag and the
/// gravity meter touched.
pub open spec fn only_queue_changed(before: GameState, after: GameState) -> bool {
    &&& after.debug == before.debug
    &&& after.placed_blocks == before.placed_blocks
    &&& after.current == before.current
    &&& after.ghost_piece.pos == before.ghost_piece.pos
    &&& after.tetrominos == before.tetrominos
    &&& after.score == before.score
    &&& after.gravity.max == before.gravity.max
    &&& after.hold == before.hold
    &&& after.statistics == before.statistics
    &&& after.line_clear == before.line_clear
    &&& after.last_score == before.last_score
    &&& after.last_input == before.last_input
}

/// The queue lost its front and gained `refill` at its back; the ghost is
/// marked for recomputation and the gravity meter restarts.
pub open spec fn drained(before: GameState, after: GameState, refill: Tetromino) -> bool {
    &&& only_queue_changed(before, after)
    &&& after.next@ == before.next@.drop_first().push(refill)
    &&& after.ghost_piece.dirty
    &&& after.gravity.meter == 0
}

/// A piece at its spawn position lies inside the well.
pub proof fn lemma_spawn_inside(t: Tetromino)
    requires
        t.at_spawn(),
    ensures
        !wall_hit(t.mat@, t.pos),
{
    assert forall|x: int, y: int| #[trigger] covers(t.mat@, t.pos, x, y) implies !(x < 0 || x
        >= WELL_WIDTH || y < 0) by {}
}

/// Takes the front of the queue and refills the back with `refill`.
pub fn drain_next_refill(gs: &mut GameState, refill: Tetromino) -> (t: Tetromino)
    requires
        old(gs).wf(),
        from_catalog(old(gs).tetrominos@, refill),
    ensures
        t == old(gs).next@[0],
        t.is_fresh(t.kind),
        drained(*old(gs), *final(gs), refill),
        final(gs).wf(),
{
    let t = gs.next.remove(0);
    gs.next.push(refill);
    gs.ghost_piece.dirty = true;
    gs.gravity.meter = 0;
    proof {
        lemma_catalog_fresh(gs.tetrominos@, t);
        assert(gs.next@ == old(gs).next@.drop_first().push(refill));
        assert forall|i: int| 0 <= i < NEXT_COUNT implies from_catalog(gs.tetrominos@, #[trigger] gs.next@[i]) by {
            if i < NEXT_COUNT - 1 {
                assert(gs.next@[i] == old(gs).next@[i + 1]);
            }
        }
    }
    t
}

/// Takes the front of the queue and refills the back with a piece of the
/// catalog drawn at random.
pub fn drain_next(gs: &mut GameState) -> (t: Tetromino)
    requires
        old(gs).wf(),
    ensures
        t == old(gs).next@[0],
        t.is_fresh(t.kind),
        exists|refill: Tetromino|
            from_catalog(old(gs).tetrominos@, refill) && drained(*old(gs), *final(gs), refill),
        final(gs).wf(),
{
    let refill = spawn_tetromino(&gs.tetrominos);
    drain_next_refill(gs, refill)
}

/// The first position at or below `pos`, in its column, where `m` rests.
pub open spec fn lands_at(b: Board, m: crate::shape::Grid, pos: Point, y: int) -> bool {
    &&& y <= pos.y
    &&& resting(b, m, Point { x: pos.x, y: y as i32 })
    &&& forall|z: int| y < z <= pos.y ==> !#[trigger] resting(b, m, Point { x: pos.x, y: z as i32 })
}

/// One row down from a position inside the well where the piece does not
/// rest is still inside the well.
pub proof fn lemma_step_down(t: Tetromino, pos: Point)
    requires
        t.wf(),
        in_range(pos),
        !wall_hit(t.mat@, pos),
        !floor_hit(t.mat@, pos),
    ensures
        pos.y >= -2,
        in_range(Point { x: pos.x, y: (pos.y - 1) as i32 }),
        !wall_hit(t.mat@, Point { x: pos.x, y: (pos.y - 1) as i32 }),
{
    lemma_piece_has_cell(t);
    let (x0, y0) = choose|x: int, y: int| #[trigger] covers(t.mat@, t.pos, x, y);
    let a = x0 - t.pos.x;
    let b = y0 - t.pos.y;
    assert(covers(t.mat@, pos, pos.x + a, pos.y + b));
    let np = Point { x: pos.x, y: (pos.y - 1) as i32 };
    assert forall|x: int, y: int| #[trigger] covers(t.mat@, np, x, y) implies !(x < 0 || x >= WELL_WIDTH
        || y < 0) by {
        assert(covers(t.mat@, pos, x, y + 1));
    }
}

/// Projects the piece straight down to where it first rests and stores
/// that as the ghost position.
pub fn update_ghost(gs: &mut GameState)
    requires
        old(gs).wf(),
    ensures
        final(gs).wf(),
        !final(gs).ghost_piece.dirty,
        final(gs).ghost_piece.pos.x == old(gs).current.pos.x,
        lands_at(
            old(gs).placed_blocks,
            old(gs).current.mat@,
            old(gs).current.pos,
            final(gs).ghost_piece.pos.y as int,
        ),
        final(gs).placed_blocks == old(gs).placed_blocks,
        final(gs).current == old(gs).current,
        final(gs).next == old(gs).next,
        final(gs).hold == old(gs).hold,
        final(gs).score == old(gs).score,
        final(gs).gravity == old(gs).gravity,
        final(gs).statistics == old(gs).statistics,
        final(gs).line_clear == old(gs).line_clear,
        final(gs).last_score == old(gs).last_score,
        final(gs).last_input == old(gs).last_input,
        final(gs).tetrominos == old(gs).tetrominos,
        final(gs).debug == old(gs).debug,
{
    let mut pos = gs.current.pos;
    while !should_commit_tetromino(&gs.current, &pos, &gs.placed_blocks)
        invariant
            gs == old(gs),
            gs.wf(),
            !wall_hit(gs.current.mat@, pos),
            in_range(pos),
            pos.x == gs.current.pos.x,
            pos.y <= gs.current.pos.y,
            forall|z: int|
                pos.y < z <= gs.current.pos.y ==> !#[trigger] resting(
                    gs.placed_blocks,
                    gs.current.mat@,
                    Point { x: pos.x, y: z as i32 },
                ),
        decreases pos.y + 3,
    {
        proof {
            lemma_step_down(gs.current, pos);
            assert(Point { x: pos.x, y: pos.y as i32 } == pos);
        }
        pos.y = pos.y - 1;
    }
    proof {
        assert(Point { x: pos.x, y: pos.y as i32 } == pos);
    }
    gs.ghost_piece = GhostPiece { pos, dirty: false };
}

/// Moves the piece down one row; the gravity meter restarts, and so does
/// lock progress if the piece was locking.
pub fn move_downwards(gs: &mut GameState)
    requires
        old(gs).wf(),
        !resting(old(gs).placed_blocks, old(gs).current.mat@, old(gs).current.pos),
    ensures
        final(gs).wf(),
        final(gs).current == (Tetromino {
            pos: Point { x: old(gs).current.pos.x, y: (old(gs).current.pos.y - 1) as i32 },
            lock_counter: if old(gs).current.locking {
                0
            } else {
                old(gs).current.lock_counter
            },
            ..old(gs).current
        }),
        final(gs).gravity.meter == 0,
        final(gs).gravity.max == old(gs).gravity.max,
        final(gs).placed_blocks == old(gs).placed_blocks,
        final(gs).ghost_piece == old(gs).ghost_piece,
        final(gs).next == old(gs).next,
        final(gs).hold == old(gs).hold,
        final(gs).score == old(gs).score,
        final(gs).statistics == old(gs).statistics,
        final(gs).line_clear == old(gs).line_clear,
        final(gs).last_score == old(gs).last_score,
        final(gs).last_input == old(gs).last_input,
        final(gs).tetrominos == old(gs).tetrominos,
        final(gs).debug == old(gs).debug,
{
    proof {
        lemma_step_down(gs.current, gs.current.pos);
    }
    gs.current.pos = Point { x: gs.current.pos.x, y: gs.current.pos.y - 1 };
    gs.gravity.meter = 0;
    if gs.current.locking {
        gs.current.lock_counter = 0;
    }
}

/// The piece one column to the left or right, if that move is allowed.
pub open spec fn shifted(b: Board, before: Tetromino, after: Tetromino, dx: int) -> bool {
    let target = Point { x: (before.pos.x + dx) as i32, y: before.pos.y };
    if -POS_LIMIT <= before.pos.x + dx <= POS_LIMIT && translate_ok(b, before.mat@, before.pos, target) {
        after == Tetromino { pos: target, ..before }
    } else {
        after == before
    }
}

fn move_sideways(tetromino: &mut Tetromino, placed: &Board, ghost_piece: &mut GhostPiece, dx: i32)
    requires
        old(tetromino).wf(),
        placed.wf(),
        dx == -1 || dx == 1,
    ensures
        final(tetromino).wf(),
        shifted(*placed, *old(tetromino), *final(tetromino), dx as int),
        final(tetromino).pos != old(tetromino).pos ==> {
            &&& final(ghost_piece).dirty
            &&& final(ghost_piece).pos == (Point { x: final(tetromino).pos.x, y: old(ghost_piece).pos.y })
        },
        final(tetromino).pos == old(tetromino).pos ==> *final(ghost_piece) == *old(ghost_piece),
{
    let x = tetromino.pos.x;
    if (dx < 0 && x <= -POS_LIMIT) || (dx > 0 && x >= POS_LIMIT) {
        return;
    }
    let new_pos = Point { x: x + dx, y: tetromino.pos.y };
    if can_translate(tetromino, placed, &new_pos) {
        tetromino.pos = new_pos;
        ghost_piece.pos.x = new_pos.x;
        ghost_piece.dirty = true;
    }
}

/// Moves the piece one column left if the walls and blocks allow it.
pub fn move_left(tetromino: &mut Tetromino, placed: &Board, ghost_piece: &mut GhostPiece)
    requires
        old(tetromino).wf(),
        placed.wf(),
    ensures
        final(tetromino).wf(),
        shifted(*placed, *old(tetromino), *final(tetromino), -1),
        final(tetromino).pos != old(tetromino).pos ==> {
            &&& final(ghost_piece).dirty
            &&& final(ghost_piece).pos == (Point { x: final(tetromino).pos.x, y: old(ghost_piece).pos.y })
        },
        final(tetromino).pos == old(tetromino).pos ==> *final(ghost_piece) == *old(ghost_piece),
{
    move_sideways(tetromino, placed, ghost_piece, -1);
}

/// Moves the piece one column right if the walls and blocks allow it.
pub fn move_right(tetromino: &mut Tetromino, placed: &Board, ghost_piece: &mut GhostPiece)
    requires
        old(tetromino).wf(),
        placed.wf(),
    ensures
        final(tetromino).wf(),
        shifted(*placed, *old(tetromino), *final(tetromino), 1),
        final(tetromino).pos != old(tetromino).pos ==> {
            &&& final(ghost_piece).dirty
            &&& final(ghost_piece).pos == (Point { x: final(tetromino).pos.x, y: old(ghost_piece).pos.y })
        },
        final(tetromino).pos == old(tetromino).pos ==> *final(ghost_piece) == *old(ghost_piece),
{
    move_sideways(tetromino, placed, ghost_piece, 1);
}

/// Neighbour offset `(dx, dy)` counts for the T-spin test of a T piece in
/// rotation state `rot`: each state looks only inside its own window.
pub open spec fn counted(rot: int, dx: int, dy: int) -> bool {
    if rot == 1 {
        0 <= dx <= 1 && -1 <= dy <= 1
    } else if rot == 2 {
        -1 <= dx <= 1 && -1 <= dy <= 0
    } else {
        -1 <= dx <= 1 && 0 <= dy <= 1
    }
}

/// `(dx, dy)` is one of the four orthogonal steps.
pub open spec fn is_dir(dx: int, dy: int) -> bool {
    (dx == 0 && (dy == 1 || dy == -1)) || (dy == 0 && (dx == 1 || dx == -1))
}

/// Every counted orthogonal neighbour of every cell of the piece holds a
/// block (cells of the piece itself included).
pub open spec fn t_spin_shape(b: Board, m: crate::shape::Grid, pos: Point, rot: int) -> bool {
    forall|x: int, y: int, dx: int, dy: int|
        #![trigger covers(m, pos, x, y), b.occupied(x + dx, y + dy)]
        covers(m, pos, x, y) && is_dir(dx, dy) && counted(rot, dx, dy) ==> b.occupied(x + dx, y + dy)
}

fn neighbour_ok(placed: &Board, rot: usize, p: Point, dx: i32, dy: i32) -> (r: bool)
    requires
        placed.wf(),
        -POS_LIMIT - 4 <= p.x <= POS_LIMIT + 4,
        -POS_LIMIT - 4 <= p.y <= POS_LIMIT + 4,
        -1 <= dx <= 1,
        -1 <= dy <= 1,
    ensures
        r == (counted(rot as int, dx as int, dy as int) ==> placed.occupied(p.x + dx, p.y + dy)),
{
    let inside = if rot == 1 {
        0 <= dx && dx <= 1 && -1 <= dy && dy <= 1
    } else if rot == 2 {
        -1 <= dx && dx <= 1 && -1 <= dy && dy <= 0
    } else {
        -1 <= dx && dx <= 1 && 0 <= dy && dy <= 1
    };
    !inside || placed.is_occupied(p.x + dx, p.y + dy)
}

/// Whether the placed T piece fills a notch: every counted neighbour of
/// each of its cells holds a block.
pub fn t_spin_check(placed: &Board, t: &Tetromino) -> (r: bool)
    requires
        placed.wf(),
        t.wf(),
    ensures
        r == t_spin_shape(*placed, t.mat@, t.pos, t.rot_index as int),
{
    let pts = t.relative_points(&t.pos);
    let rot = t.rot_index;
    let mut k: usize = 0;
    while k < pts.len()
        invariant
            placed.wf(),
            t.wf(),
            rot == t.rot_index,
            crate::collision::lists_footprint(t.mat@, t.pos, pts@),
            k <= pts@.len(),
            forall|j: int, dx: int, dy: int|
                #![trigger pts@[j], placed.occupied(pts@[j].x + dx, pts@[j].y + dy)]
                0 <= j < k && is_dir(dx, dy) && counted(rot as int, dx, dy) ==> placed.occupied(
                    pts@[j].x + dx,
                    pts@[j].y + dy,
                ),
        decreases pts@.len() - k,
    {
        let p = pts[k];
        proof {
            assert(covers(t.mat@, t.pos, p.x as int, p.y as int));
        }
        let ok = neighbour_ok(placed, rot, p, 0, 1) && neighbour_ok(placed, rot, p, -1, 0)
            && neighbour_ok(placed, rot, p, 0, -1) && neighbour_ok(placed, rot, p, 1, 0);
        if !ok {
            proof {
                let (dx, dy) = if !(counted(rot as int, 0, 1) ==> placed.occupied(p.x + 0, p.y + 1)) {
                    (0int, 1int)
                } else if !(counted(rot as int, -1, 0) ==> placed.occupied(p.x - 1, p.y + 0)) {
                    (-1int, 0int)
                } else if !(counted(rot as int, 0, -1) ==> placed.occupied(p.x + 0, p.y - 1)) {
                    (0int, -1int)
                } else {
                    (1int, 0int)
                };
                assert(covers(t.mat@, t.pos, p.x as int, p.y as int) && is_dir(dx, dy) && counted(
                    rot as int,
                    dx,
                    dy,
                ) && !placed.occupied(p.x + dx, p.y + dy));
            }
            return false;
        }
        proof {
            assert forall|j: int, dx: int, dy: int|
                #![trigger pts@[j], placed.occupied(pts@[j].x + dx, pts@[j].y + dy)]
                0 <= j < k + 1 && is_dir(dx, dy) && counted(rot as int, dx, dy) implies placed.occupied(
                pts@[j].x + dx,
                pts@[j].y + dy,
            ) by {
                if j == k {
                    assert(pts@[j] == p);
                }
            }
        }
        k += 1;
    }
    proof {
        assert forall|x: int, y: int, dx: int, dy: int|
            #![trigger covers(t.mat@, t.pos, x, y), placed.occupied(x + dx, y + dy)]
            covers(t.mat@, t.pos, x, y) && is_dir(dx, dy) && counted(rot as int, dx, dy) implies placed.occupied(
            x + dx,
            y + dy,
        ) by {
            let j = choose|j: int| 0 <= j < pts@.len() && #[trigger] pts@[j].x == x && pts@[j].y == y;
            assert(placed.occupied(pts@[j].x + dx, pts@[j].y + dy));
        }
    }
    true
}

/// `after` is `before` with a block of the piece's kind in every cell that
/// the piece covers.
pub open spec fn placed_piece(before: Board, after: Board, t: Tetromino) -> bool {
    &&& before.same_dims(&after)
    &&& forall|x: int, y: int|
        #![trigger after.cell(x, y)]
        before.in_bounds(x, y) ==> after.cell(x, y) == if covers(t.mat@, t.pos, x, y) {
            Some(Block { kind: t.kind })
        } else {
            before.cell(x, y)
        }
}

pub open spec fn sat_add(a: int, b: int, max: int) -> int {
    if a + b > max {
        max
    } else {
        a + b
    }
}

/// What committing the active piece does. At its spawn position the game
/// tops out and nothing else changes. Elsewhere its cells become blocks, the
/// kind's count grows, the front of the queue becomes the active piece, and
/// full rows, if any, are scored and scheduled for removal.
pub open spec fn commit_effect(before: GameState, after: GameState) -> bool {
    let t = before.current;
    if t.pos == t.spawn_pos {
        after == GameState { score: Score { topout: true, ..before.score }, ..before }
    } else {
        let k = kind_index_spec(t.kind);
        let t_spin = t.kind == TetrominoType::T && before.last_input == FrameInput::Rotate
            && t_spin_shape(after.placed_blocks, t.mat@, t.pos, t.rot_index as int);
        &&& placed_piece(before.placed_blocks, after.placed_blocks, t)
        &&& after.statistics@ == before.statistics@.update(
            k,
            sat_add(before.statistics@[k] as int, 1, u64::MAX as int) as u64,
        )
        &&& after.current == before.next@[0]
        &&& exists|refill: Tetromino|
            from_catalog(before.tetrominos@, refill) && after.next@ == before.next@.drop_first().push(
                refill,
            )
        &&& after.ghost_piece.dirty
        &&& after.gravity.meter == 0
        &&& after.score.topout == before.score.topout
        &&& after.hold == before.hold
        &&& after.tetrominos == before.tetrominos
        &&& after.last_input == before.last_input
        &&& after.debug == before.debug
        &&& if forall|y: int| 0 <= y < WELL_HEIGHT ==> !#[trigger] after.placed_blocks.row_full(y) {
            &&& after.score == before.score
            &&& after.line_clear == before.line_clear
            &&& after.last_score == before.last_score
            &&& after.gravity.max == before.gravity.max
        } else {
            &&& after.line_clear matches Some(lc)
            &&& lists_full_rows(after.placed_blocks, lc.lines@)
            &&& lc.counter == 0
            &&& lc.y_pos == lc.lines@[0]
            &&& after.score.lines == sat_add(
                before.score.lines as int,
                lc.lines@.len() as int,
                usize::MAX as int,
            )
            &&& after.score.level == level_for(after.score.lines as int)
            &&& after.score.val == sat_add(
                before.score.val as int,
                score_for(lc.lines@.len() as int, t_spin),
                u64::MAX as int,
            )
            &&& after.last_score.val == score_for(lc.lines@.len() as int, t_spin)
            &&& after.last_score.creation == 0
            &&& after.gravity.max == crate::scoring::gravity_frames(after.score.level as int)
        }
    }
}

/// Commits the active piece: see `commit_effect`.
pub fn commit_tetromino(gs: &mut GameState)
    requires
        old(gs).wf(),
    ensures
        final(gs).wf(),
        commit_effect(*old(gs), *final(gs)),
{
    if gs.current.pos == gs.current.spawn_pos {
        gs.score.topout = true;
        return;
    }
    let ghost before = *gs;
    let t = gs.current;
    let points = t.relative_points(&t.pos);
    place_blocks(&mut gs.placed_blocks, &points, Block { kind: t.kind });
    proof {
        assert(placed_piece(before.placed_blocks, gs.placed_blocks, t)) by {
            assert forall|x: int, y: int|
                #![trigger gs.placed_blocks.cell(x, y)]
                before.placed_blocks.in_bounds(x, y) implies gs.placed_blocks.cell(x, y) == if covers(
                t.mat@,
                t.pos,
                x,
                y,
            ) {
                Some(Block { kind: t.kind })
            } else {
                before.placed_blocks.cell(x, y)
            } by {
                if exists|i: int|
                    0 <= i < points@.len() && #[trigger] points@[i].x == x && points@[i].y == y {
                    let i = choose|i: int|
                        0 <= i < points@.len() && #[trigger] points@[i].x == x && points@[i].y == y;
                    assert(covers(t.mat@, t.pos, points@[i].x as int, points@[i].y as int));
                }
            }
        }
    }
    let t_spin = t.kind == TetrominoType::T && gs.last_input == FrameInput::Rotate && t_spin_check(
        &gs.placed_blocks,
        &t,
    );
    let k = kind_index(t.kind);
    let count = gs.statistics[k];
    gs.statistics.set(k, count.saturating_add(1));
    let ghost placed = gs.placed_blocks;
    gs.current = drain_next(gs);
    assert(gs.placed_blocks == placed);
    let completed = completed_lines(&gs.placed_blocks);
    proof {
        lemma_full_rows_valid(gs.placed_blocks, completed@);
    }
    if completed.len() > 0 {
        let n = completed.len();
        let score = calculate_score(n, t_spin);
        gs.score.lines = gs.score.lines.saturating_add(n);
        gs.score.level = level_for_lines(gs.score.lines);
        gs.score.val = gs.score.val.saturating_add(score);
        gs.gravity.max = get_level_gravity_max(gs.score.level);
        gs.last_score = ScorePopup { val: score, creation: 0 };
        let y_pos = completed[0];
        gs.line_clear = Some(LineClear { y_pos, lines: completed, counter: 0 });
        proof {
            let k = kind_index_spec(t.kind);
            assert(placed_piece(before.placed_blocks, gs.placed_blocks, t));
            assert(gs.statistics@ == before.statistics@.update(
                k,
                sat_add(before.statistics@[k] as int, 1, u64::MAX as int) as u64,
            ));
            assert(gs.current == before.next@[0]);
            assert(exists|refill: Tetromino|
                from_catalog(before.tetrominos@, refill) && gs.next@ == before.next@.drop_first().push(
                    refill,
                ));
            assert(t_spin == (t.kind == TetrominoType::T && before.last_input == FrameInput::Rotate
                && t_spin_shape(gs.placed_blocks, t.mat@, t.pos, t.rot_index as int)));
            assert(gs.score.lines == sat_add(before.score.lines as int, n as int, usize::MAX as int));
            assert(gs.score.val == sat_add(before.score.val as int, score as int, u64::MAX as int));
            assert(!(forall|y: int| 0 <= y < WELL_HEIGHT ==> !#[trigger] gs.placed_blocks.row_full(y)));
        }
    } else {
        proof {
            assert forall|y: int| 0 <= y < WELL_HEIGHT implies !#[trigger] gs.placed_blocks.row_full(y) by {
                if gs.placed_blocks.row_full(y) {
                    let i = choose|i: int| 0 <= i < completed@.len() && completed@[i] == y;
                }
            }
        }
    }
}

/// The piece touches the floor or a block.
pub open spec fn on_surface(gs: GameState) -> bool {
    resting(gs.placed_blocks, gs.current.mat@, gs.current.pos)
}

/// The piece commits this frame: it rests, and it was hard-dropped or has
/// waited out the lock delay while locking.
pub open spec fn commits(gs: GameState) -> bool {
    let locking = gs.current.locking || on_surface(gs);
    on_surface(gs) && (gs.current.sonic_lock || (locking && gs.current.lock_counter >= LOCK_DELAY))
}

/// Gravity moves the piece this frame.
pub open spec fn falls(gs: GameState) -> bool {
    !on_surface(gs) && gs.gravity.meter >= gs.gravity.max && gs.current.entry_timer >= ENTRY_DELAY
}

/// The state with the piece marked locking once it rests.
pub open spec fn with_locking(gs: GameState) -> GameState {
    GameState {
        current: Tetromino { locking: gs.current.locking || on_surface(gs), ..gs.current },
        ..gs
    }
}

/// The second half of a frame: a resting piece starts locking; it commits
/// on a hard drop or once the lock delay has passed; a piece in the air
/// falls a row when the gravity meter is full and the entry delay is over.
pub open spec fn settled(before: GameState, after: GameState) -> bool {
    if commits(before) {
        commit_effect(with_locking(before), after)
    } else if falls(before) {
        let t = before.current;
        after == GameState {
            current: Tetromino {
                pos: Point { x: t.pos.x, y: (t.pos.y - 1) as i32 },
                lock_counter: if t.locking {
                    0
                } else {
                    t.lock_counter
                },
                ..t
            },
            gravity: Gravity { meter: 0, ..before.gravity },
            ..before
        }
    } else {
        after == with_locking(before)
    }
}

/// Marks a resting piece as locking, commits it or lets it fall: see
/// `settled`.
pub fn settle_piece(gs: &mut GameState)
    requires
        old(gs).wf(),
    ensures
        final(gs).wf(),
        settled(*old(gs), *final(gs)),
{
    let on_surface = should_commit_tetromino(&gs.current, &gs.current.pos, &gs.placed_blocks);
    if on_surface {
        gs.current.locking = true;
    }
    if on_surface && (gs.current.sonic_lock || (gs.current.locking && gs.current.lock_counter
        >= LOCK_DELAY)) {
        commit_tetromino(gs);
    }
    if !on_surface && gs.gravity.meter >= gs.gravity.max && gs.current.entry_timer >= ENTRY_DELAY {
        move_downwards(gs);
    }
}

pub open spec fn sat_inc32(a: u32) -> u32 {
    if a == u32::MAX {
        a
    } else {
        (a + 1) as u32
    }
}

/// The first half of a frame, on the clocks: the gravity meter, the entry
/// delay, the lock counter of a locking piece and the score popup advance;
/// a pending line clear advances and, once its delay is over, removes its
/// rows; a ghost marked dirty is recomputed.
pub open spec fn advanced(before: GameState, after: GameState) -> bool {
    let t = before.current;
    let cleared = before.line_clear matches Some(lc) && sat_inc32(lc.counter) >= LINE_CLEAR_DELAY;
    &&& after.current == Tetromino {
        entry_timer: if t.entry_timer < ENTRY_DELAY {
            (t.entry_timer + 1) as u32
        } else {
            t.entry_timer
        },
        lock_counter: if t.locking {
            sat_inc32(t.lock_counter)
        } else {
            t.lock_counter
        },
        ..t
    }
    &&& after.gravity == Gravity { meter: sat_inc32(before.gravity.meter), ..before.gravity }
    &&& after.last_score == if before.last_score.val > 0 && before.last_score.creation < SCORE_TIMEOUT {
        ScorePopup { creation: (before.last_score.creation + 1) as u32, ..before.last_score }
    } else {
        before.last_score
    }
    &&& match before.line_clear {
        Some(lc) => if cleared {
            &&& rows_compacted(before.placed_blocks, after.placed_blocks, lc.lines@)
            &&& after.line_clear is None
        } else {
            &&& after.placed_blocks == before.placed_blocks
            &&& after.line_clear == Some(LineClear { counter: sat_inc32(lc.counter), ..lc })
        },
        None => {
            &&& after.placed_blocks == before.placed_blocks
            &&& after.line_clear is None
        },
    }
    &&& if before.ghost_piece.dirty || cleared {
        &&& !after.ghost_piece.dirty
        &&& after.ghost_piece.pos.x == after.current.pos.x
        &&& lands_at(
            after.placed_blocks,
            after.current.mat@,
            after.current.pos,
            after.ghost_piece.pos.y as int,
        )
    } else {
        after.ghost_piece == before.ghost_piece
    }
    &&& after.next == before.next
    &&& after.tetrominos == before.tetrominos
    &&& after.score == before.score
    &&& after.hold == before.hold
    &&& after.statistics == before.statistics
    &&& after.last_input == before.last_input
    &&& after.debug == before.debug
}

/// Advances the clocks of a frame: see `advanced`.
pub fn advance_timers(gs: &mut GameState)
    requires
        old(gs).wf(),
    ensures
        final(gs).wf(),
        advanced(*old(gs), *final(gs)),
{
    gs.gravity.meter = gs.gravity.meter.saturating_add(1);
    if gs.current.entry_timer < ENTRY_DELAY {
        gs.current.entry_timer = gs.current.entry_timer + 1;
    }
    if gs.last_score.val > 0 && gs.last_score.creation < SCORE_TIMEOUT {
        gs.last_score.creation = gs.last_score.creation + 1;
    }
    let mut clear_now = false;
    match &mut gs.line_clear {
        Some(line_clear) => {
            line_clear.counter = line_clear.counter.saturating_add(1);
            if line_clear.counter >= LINE_CLEAR_DELAY {
                clear_now = true;
            }
        },
        None => {},
    }
    if clear_now {
        let lc = gs.line_clear.take();
        match lc {
            Some(line_clear) => {
                remove_lines(&mut gs.placed_blocks, &line_clear.lines);
                gs.ghost_piece.dirty = true;
            },
            None => {},
        }
    }
    if gs.current.locking {
        gs.current.lock_counter = gs.current.lock_counter.saturating_add(1);
    }
    if gs.ghost_piece.dirty {
        update_ghost(gs);
    }
}

/// One frame of play: `advance_timers`, then `settle_piece`.
pub fn play_update(gs: &mut GameState)
    requires
        old(gs).wf(),
    ensures
        final(gs).wf(),
        exists|mid: GameState| mid.wf() && advanced(*old(gs), mid) && settled(mid, *final(gs)),
{
    advance_timers(gs);
    let ghost mid = *gs;
    settle_piece(gs);
}

/// What the input layer decoded for one frame. A move flag stands for one
/// step, whether from a fresh press or from auto-repeat.
#[derive(Clone, Copy, PartialEq, Eq, Structural, Debug)]
pub struct FrameIntents {
    pub move_left: bool,
    pub move_right: bool,
    pub rotate_cw: bool,
    pub rotate_ccw: bool,
    pub soft_drop_on: bool,
    pub soft_drop_off: bool,
    pub hard_drop: bool,
    pub hold: bool,
    pub restart: bool,
    pub toggle_debug: bool,
}

/// Everything but the active piece, the ghost and the last input is as it
/// was.
pub open spec fn same_but_piece(before: GameState, after: GameState) -> bool {
    &&& after.debug == before.debug
    &&& after.placed_blocks == before.placed_blocks
    &&& after.next == before.next
    &&& after.tetrominos == before.tetrominos
    &&& after.score == before.score
    &&& after.gravity == before.gravity
    &&& after.hold == before.hold
    &&& after.statistics == before.statistics
    &&& after.line_clear == before.line_clear
    &&& after.last_score == before.last_score
}

/// A sideways step of `dx`; a step taken marks the ghost and is recorded as
/// the last input.
#[verifier::opaque]
pub open spec fn shift_step(before: GameState, after: GameState, dx: int) -> bool {
    &&& same_but_piece(before, after)
    &&& shifted(before.placed_blocks, before.current, after.current, dx)
    &&& if after.current.pos != before.current.pos {
        &&& after.ghost_piece.dirty
        &&& after.ghost_piece.pos == (Point { x: after.current.pos.x, y: before.ghost_piece.pos.y })
        &&& after.last_input == FrameInput::Move
    } else {
        &&& after.ghost_piece == before.ghost_piece
        &&& after.last_input == before.last_input
    }
}

/// A quarter turn; a turn that happens marks the ghost and is recorded as
/// the last input.
#[verifier::opaque]
pub open spec fn rotate_step(before: GameState, after: GameState, clockwise: bool) -> bool {
    let t = before.current;
    &&& same_but_piece(before, after)
    &&& if t.kind != TetrominoType::O && rotation_target(before.placed_blocks, t, clockwise) is Some {
        &&& turned_to(
            t,
            after.current,
            clockwise,
            rotation_target(before.placed_blocks, t, clockwise)->0,
        )
        &&& after.ghost_piece.dirty
        &&& after.ghost_piece.pos == before.ghost_piece.pos
        &&& after.last_input == FrameInput::Rotate
    } else {
        &&& after.current == t
        &&& after.ghost_piece == before.ghost_piece
        &&& after.last_input == before.last_input
    }
}

/// A hard drop: with a clean ghost the piece moves onto it and will commit
/// on contact; with a dirty ghost nothing happens.
#[verifier::opaque]
pub open spec fn hard_drop_step(before: GameState, after: GameState) -> bool {
    if before.ghost_piece.dirty {
        after == before
    } else {
        after == GameState {
            current: Tetromino { sonic_lock: true, pos: before.ghost_piece.pos, ..before.current },
            ..before
        }
    }
}

/// `h` is `t` turned back to spawn orientation at its spawn position.
pub open spec fn reset_of(t: Tetromino, h: Tetromino) -> bool {
    &&& h.at_spawn()
    &&& h.kind == t.kind
    &&& h.lock_counter == t.lock_counter
    &&& h.entry_timer == t.entry_timer
    &&& h.locking == t.locking
    &&& h.sonic_lock == t.sonic_lock
    &&& h.held == t.held
}

/// Hold: refused once per cycle. Otherwise the active piece goes, reset,
/// into the slot, and the piece that was held (or the front of the queue, if
/// the slot was empty) becomes active and may not be held again.
#[verifier::opaque]
pub open spec fn hold_step(before: GameState, after: GameState) -> bool {
    let t = before.current;
    if t.held {
        after == before
    } else {
        &&& after.hold matches Some(h) && reset_of(t, h)
        &&& after.ghost_piece.dirty
        &&& after.debug == before.debug
        &&& after.placed_blocks == before.placed_blocks
        &&& after.tetrominos == before.tetrominos
        &&& after.score == before.score
        &&& after.gravity.max == before.gravity.max
        &&& after.statistics == before.statistics
        &&& after.line_clear == before.line_clear
        &&& after.last_score == before.last_score
        &&& after.last_input == before.last_input
        &&& match before.hold {
            Some(h) => {
                &&& after.current == Tetromino { held: true, ..h }
                &&& after.next == before.next
                &&& after.gravity.meter == before.gravity.meter
            },
            None => {
                &&& after.current == Tetromino { held: true, ..before.next@[0] }
                &&& exists|refill: Tetromino|
                    from_catalog(before.tetrominos@, refill) && after.next@
                        == before.next@.drop_first().push(refill)
                &&& after.gravity.meter == 0
            },
        }
    }
}

/// A game as it starts: empty board, zero score, nothing held.
#[verifier::opaque]
pub open spec fn fresh_game(gs: GameState) -> bool {
    &&& gs.wf()
    &&& gs.placed_blocks.is_empty()
    &&& gs.current.is_fresh(gs.current.kind)
    &&& gs.ghost_piece.dirty
    &&& gs.hold is None
    &&& gs.score.level == 0 && gs.score.lines == 0 && gs.score.val == 0 && !gs.score.topout
    &&& gs.gravity.meter == 0
    &&& gs.gravity.max == crate::scoring::gravity_frames(0)
    &&& forall|i: int| 0 <= i < KIND_COUNT ==> #[trigger] gs.statistics@[i] == 0
    &&& gs.line_clear is None
    &&& gs.last_input == FrameInput::Idle
}

/// A new game with pieces drawn at random.
pub fn get_game_state() -> (gs: GameState)
    ensures
        gs.wf(),
        fresh_game(gs),
{
    reveal(fresh_game);
    let tetrominos = tetromino_set();
    let next = random_tetrominos(&tetrominos, NEXT_COUNT);
    let current = spawn_tetromino(&tetrominos);
    proof {
        lemma_catalog_fresh(tetrominos@, current);
    }
    new_game(tetrominos, current, next)
}

/// Moves the active piece one column (`dx` is -1 or 1) if allowed.
pub fn shift_piece(gs: &mut GameState, dx: i32)
    requires
        old(gs).wf(),
        dx == -1 || dx == 1,
    ensures
        final(gs).wf(),
        shift_step(*old(gs), *final(gs), dx as int),
{
    reveal(shift_step);
    let before = gs.current.pos;
    if dx < 0 {
        move_left(&mut gs.current, &gs.placed_blocks, &mut gs.ghost_piece);
    } else {
        move_right(&mut gs.current, &gs.placed_blocks, &mut gs.ghost_piece);
    }
    if gs.current.pos != before {
        gs.last_input = FrameInput::Move;
    }
}

/// Turns the active piece a quarter if it fits, in place or kicked.
pub fn rotate_piece(gs: &mut GameState, clockwise: bool)
    requires
        old(gs).wf(),
    ensures
        final(gs).wf(),
        rotate_step(*old(gs), *final(gs), clockwise),
{
    reveal(rotate_step);
    let ghost t0 = gs.current;
    let before_rot = gs.current.rot_index;
    let before_pos = gs.current.pos;
    let before_mat = gs.current.mat;
    rotate(clockwise, &mut gs.current, &gs.placed_blocks, &mut gs.ghost_piece);
    proof {
        crate::srs::lemma_target_legal(gs.placed_blocks, t0, clockwise);
    }
    if gs.current.rot_index != before_rot {
        gs.last_input = FrameInput::Rotate;
    }
}

/// Moves the piece onto a clean ghost and marks it to commit on contact.
pub fn hard_drop(gs: &mut GameState)
    requires
        old(gs).wf(),
    ensures
        final(gs).wf(),
        hard_drop_step(*old(gs), *final(gs)),
{
    reveal(hard_drop_step);
    if !gs.ghost_piece.dirty {
        gs.current.sonic_lock = true;
        gs.current.pos = gs.ghost_piece.pos;
    }
}

/// Swaps the active piece with the hold slot: see `hold_step`.
pub fn hold_piece(gs: &mut GameState)
    requires
        old(gs).wf(),
    ensures
        final(gs).wf(),
        hold_step(*old(gs), *final(gs)),
{
    reveal(hold_step);
    if gs.current.held {
        return;
    }
    match gs.hold {
        Some(hold) => {
            let mut temp = gs.current;
            gs.current = hold;
            gs.current.held = true;
            reset_transform(&mut temp);
            gs.hold = Some(temp);
            proof {
                lemma_spawn_inside(gs.current);
            }
        },
        None => {
            let mut hold = gs.current;
            reset_transform(&mut hold);
            gs.hold = Some(hold);
            let t = drain_next(gs);
            gs.current = t;
            gs.current.held = true;
            proof {
                lemma_spawn_inside(gs.current);
            }
        },
    }
    gs.ghost_piece.dirty = true;
}

/// Soft drop on sets the fast gravity threshold; soft drop off restores the
/// level's.
#[verifier::opaque]
pub open spec fn soft_drop_step(before: GameState, after: GameState, on: bool, off: bool) -> bool {
    after == GameState {
        gravity: Gravity {
            max: if off {
                crate::scoring::gravity_frames(before.score.level as int) as u32
            } else if on {
                SOFT_DROP_GRAVITY
            } else {
                before.gravity.max
            },
            ..before.gravity
        },
        ..before
    }
}

/// Switches soft drop on or off: see `soft_drop_step`.
pub fn set_soft_drop(gs: &mut GameState, on: bool, off: bool)
    requires
        old(gs).wf(),
    ensures
        final(gs).wf(),
        soft_drop_step(*old(gs), *final(gs), on, off),
{
    reveal(soft_drop_step);
    if on {
        gs.gravity.max = SOFT_DROP_GRAVITY;
    }
    if off {
        gs.gravity.max = get_level_gravity_max(gs.score.level);
    }
}

/// The active piece has waited out its entry delay; until then it ignores
/// moves, turns and hard drops.
pub open spec fn entered(gs: GameState) -> bool {
    gs.current.entry_timer >= ENTRY_DELAY
}

/// The intents of a frame, applied in order: left, right, clockwise,
/// counter-clockwise, soft drop, hard drop, restart, hold, debug; `s[i]` is
/// the state after step `i`. Moves, turns and hard drops act only on a piece
/// that has entered.
#[verifier::opaque]
pub open spec fn input_chain(
    before: GameState,
    s: Seq<GameState>,
    after: GameState,
    input: FrameIntents,
) -> bool {
    &&& s.len() == 8
    &&& if input.move_left && entered(before) {
        shift_step(before, s[0], -1)
    } else {
        s[0] == before
    }
    &&& if input.move_right && entered(s[0]) {
        shift_step(s[0], s[1], 1)
    } else {
        s[1] == s[0]
    }
    &&& if input.rotate_cw && entered(s[1]) {
        rotate_step(s[1], s[2], true)
    } else {
        s[2] == s[1]
    }
    &&& if input.rotate_ccw && entered(s[2]) {
        rotate_step(s[2], s[3], false)
    } else {
        s[3] == s[2]
    }
    &&& soft_drop_step(s[3], s[4], input.soft_drop_on, input.soft_drop_off)
    &&& if input.hard_drop && entered(s[4]) {
        hard_drop_step(s[4], s[5])
    } else {
        s[5] == s[4]
    }
    &&& if input.restart {
        fresh_game(s[6])
    } else {
        s[6] == s[5]
    }
    &&& if input.hold {
        hold_step(s[6], s[7])
    } else {
        s[7] == s[6]
    }
    &&& after == GameState { debug: s[7].debug != input.toggle_debug, ..s[7] }
}

proof fn lemma_chain(
    before: GameState,
    s0: GameState,
    s1: GameState,
    s2: GameState,
    s3: GameState,
    s4: GameState,
    s5: GameState,
    s6: GameState,
    s7: GameState,
    after: GameState,
    input: FrameIntents,
)
    requires
        if input.move_left && entered(before) {
            shift_step(before, s0, -1)
        } else {
            s0 == before
        },
        if input.move_right && entered(s0) {
            shift_step(s0, s1, 1)
        } else {
            s1 == s0
        },
        if input.rotate_cw && entered(s1) {
            rotate_step(s1, s2, true)
        } else {
            s2 == s1
        },
        if input.rotate_ccw && entered(s2) {
            rotate_step(s2, s3, false)
        } else {
            s3 == s2
        },
        soft_drop_step(s3, s4, input.soft_drop_on, input.soft_drop_off),
        if input.hard_drop && entered(s4) {
            hard_drop_step(s4, s5)
        } else {
            s5 == s4
        },
        if input.restart {
            fresh_game(s6)
        } else {
            s6 == s5
        },
        if input.hold {
            hold_step(s6, s7)
        } else {
            s7 == s6
        },
        after == (GameState { debug: s7.debug != input.toggle_debug, ..s7 }),
    ensures
        exists|s: Seq<GameState>| #[trigger] input_chain(before, s, after, input),
{
    reveal(input_chain);
    let s = seq![s0, s1, s2, s3, s4, s5, s6, s7];
    assert(input_chain(before, s, after, input));
}

/// Applies the intents of one frame: see `input_chain`.
#[verifier::rlimit(100)]
pub fn play_input(gs: &mut GameState, input: &FrameIntents)
    requires
        old(gs).wf(),
    ensures
        final(gs).wf(),
        exists|s: Seq<GameState>| #[trigger] input_chain(*old(gs), s, *final(gs), *input),
{
    if input.move_left && gs.current.entry_timer >= ENTRY_DELAY {
        shift_piece(gs, -1);
    }
    let ghost s0 = *gs;
    if input.move_right && gs.current.entry_timer >= ENTRY_DELAY {
        shift_piece(gs, 1);
    }
    let ghost s1 = *gs;
    if input.rotate_cw && gs.current.entry_timer >= ENTRY_DELAY {
        rotate_piece(gs, true);
    }
    let ghost s2 = *gs;
    if input.rotate_ccw && gs.current.entry_timer >= ENTRY_DELAY {
        rotate_piece(gs, false);
    }
    let ghost s3 = *gs;
    set_soft_drop(gs, input.soft_drop_on, input.soft_drop_off);
    let ghost s4 = *gs;
    if input.hard_drop && gs.current.entry_timer >= ENTRY_DELAY {
        hard_drop(gs);
    }
    let ghost s5 = *gs;
    if input.restart {
        *gs = get_game_state();
    }
    let ghost s6 = *gs;
    if input.hold {
        hold_piece(gs);
    }
    let ghost s7 = *gs;
    if input.toggle_debug {
        gs.debug = !gs.debug;
    }
    proof {
        lemma_chain(*old(gs), s0, s1, s2, s3, s4, s5, s6, s7, *gs, *input);
    }
}

} // verus!
