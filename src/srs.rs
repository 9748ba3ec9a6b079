//! Super Rotation System: quarter turns of the active piece, with wall
//! kicks looked up by rotation state when the plain turn does not fit.
use vstd::prelude::*;
use crate::board::Board;
use crate::collision::{fits, legal};
use crate::piece::{
    GhostPiece, Point, Tetromino, TetrominoType, POS_LIMIT, in_range, lemma_rotation_states,
};
use crate::shape::Grid;

verus! {

/// Every kick offset was tried and none fits.
#[derive(Clone, Copy, PartialEq, Eq, Structural, Debug)]
pub enum KickError {
    Exhausted,
}

/// Kick offsets `(dx, dy)`, four per starting rotation state: entry
/// `from * 4 + attempt`. The I piece has a table of its own.
pub open spec fn kick_table(i_piece: bool) -> Seq<(int, int)> {
    if i_piece {
        seq![
            (-2, 0), (1, 0), (-2, -1), (1, 2),
            (-1, 0), (2, 0), (-1, 2), (2, -1),
            (2, 0), (-1, 0), (2, 1), (-1, -2),
            (1, 0), (-2, 0), (1, -2), (-2, 1),
        ]
    } else {
        seq![
            (-1, 0), (-1, 1), (0, -2), (-1, -2),
            (1, 0), (1, -1), (0, 2), (1, 2),
            (1, 0), (1, 1), (0, -2), (1, -2),
            (-1, 0), (-1, -1), (0, 2), (-1, 2),
        ]
    }
}

/// Entry `idx` of a kick table.
pub fn kick_offset(i_piece: bool, idx: usize) -> (d: (i32, i32))
    requires
        idx < 16,
    ensures
        d.0 == kick_table(i_piece)[idx as int].0,
        d.1 == kick_table(i_piece)[idx as int].1,
        -2 <= d.0 <= 2,
        -2 <= d.1 <= 2,
{
    let table: [(i32, i32); 16] = if i_piece {
        [
            (-2, 0), (1, 0), (-2, -1), (1, 2),
            (-1, 0), (2, 0), (-1, 2), (2, -1),
            (2, 0), (-1, 0), (2, 1), (-1, -2),
            (1, 0), (-2, 0), (1, -2), (-2, 1),
        ]
    } else {
        [
            (-1, 0), (-1, 1), (0, -2), (-1, -2),
            (1, 0), (1, -1), (0, 2), (1, 2),
            (1, 0), (1, 1), (0, -2), (1, -2),
            (-1, 0), (-1, -1), (0, 2), (-1, 2),
        ]
    };
    table[idx]
}

pub open spec fn point_of(x: int, y: int) -> Point {
    Point { x: x as i32, y: y as i32 }
}

/// The position that kick `attempt` from rotation state `from` leads to.
pub open spec fn kick_point(pos: Point, from: int, i_piece: bool, attempt: int) -> (int, int) {
    let d = kick_table(i_piece)[from * 4 + attempt];
    (pos.x + d.0, pos.y + d.1)
}

/// Kick `attempt` stays within bounds and gives a legal placement of `m`.
pub open spec fn kick_ok(b: Board, m: Grid, pos: Point, from: int, i_piece: bool, attempt: int) -> bool {
    let q = kick_point(pos, from, i_piece, attempt);
    &&& -POS_LIMIT <= q.0 <= POS_LIMIT
    &&& -POS_LIMIT <= q.1 <= POS_LIMIT
    &&& legal(b, m, point_of(q.0, q.1))
}

/// `attempt` is the first kick, in table order, that works.
pub open spec fn first_kick(b: Board, m: Grid, pos: Point, from: int, i_piece: bool, attempt: int) -> bool {
    &&& 0 <= attempt < 4
    &&& kick_ok(b, m, pos, from, i_piece, attempt)
    &&& forall|a: int| 0 <= a < attempt ==> !#[trigger] kick_ok(b, m, pos, from, i_piece, a)
}

/// Tries the four kicks of rotation state `tetromino.rot_index` in table
/// order and returns the first position where the piece, with its matrix as
/// it is, fits.
pub fn mat3_super_kick(i_piece: bool, tetromino: &Tetromino, placed: &Board) -> (r: Result<
    Point,
    KickError,
>)
    requires
        placed.wf(),
        tetromino.mat.wf(),
        in_range(tetromino.pos),
        tetromino.rot_index < 4,
    ensures
        match r {
            Ok(p) => exists|a: int|
                {
                    &&& first_kick(
                        *placed,
                        tetromino.mat@,
                        tetromino.pos,
                        tetromino.rot_index as int,
                        i_piece,
                        a,
                    )
                    &&& p == point_of(
                        #[trigger] kick_point(tetromino.pos, tetromino.rot_index as int, i_piece, a).0,
                        kick_point(tetromino.pos, tetromino.rot_index as int, i_piece, a).1,
                    )
                },
            Err(_) => forall|a: int|
                0 <= a < 4 ==> !#[trigger] kick_ok(
                    *placed,
                    tetromino.mat@,
                    tetromino.pos,
                    tetromino.rot_index as int,
                    i_piece,
                    a,
                ),
        },
{
    let ghost from = tetromino.rot_index as int;
    let mut x: usize = 0;
    while x < 4
        invariant
            placed.wf(),
            tetromino.mat.wf(),
            in_range(tetromino.pos),
            tetromino.rot_index < 4,
            from == tetromino.rot_index,
            x <= 4,
            forall|a: int|
                0 <= a < x ==> !#[trigger] kick_ok(*placed, tetromino.mat@, tetromino.pos, from, i_piece, a),
        decreases 4 - x,
    {
        let d = kick_offset(i_piece, tetromino.rot_index * 4 + x);
        let nx = tetromino.pos.x + d.0;
        let ny = tetromino.pos.y + d.1;
        if -POS_LIMIT <= nx && nx <= POS_LIMIT && -POS_LIMIT <= ny && ny <= POS_LIMIT {
            let new_pos = Point { x: nx, y: ny };
            if fits(tetromino, placed, &new_pos) {
                assert(first_kick(*placed, tetromino.mat@, tetromino.pos, from, i_piece, x as int));
                return Ok(new_pos);
            }
        }
        x += 1;
    }
    Err(KickError::Exhausted)
}

/// The rotation state after a quarter turn.
pub open spec fn next_rot(rot: int, clockwise: bool) -> int {
    if clockwise {
        (rot + 1) % 4
    } else {
        (rot + 3) % 4
    }
}

/// Where a quarter turn of `t` lands: in place if the turned matrix fits
/// there, else at the first kick that fits; `None` if nothing fits.
pub open spec fn rotation_target(b: Board, t: Tetromino, clockwise: bool) -> Option<Point> {
    let m = t.mat@.turned(clockwise);
    let i_piece = t.kind == TetrominoType::I;
    if legal(b, m, t.pos) {
        Some(t.pos)
    } else if exists|a: int| first_kick(b, m, t.pos, t.rot_index as int, i_piece, a) {
        let a = choose|a: int| first_kick(b, m, t.pos, t.rot_index as int, i_piece, a);
        let q = kick_point(t.pos, t.rot_index as int, i_piece, a);
        Some(point_of(q.0, q.1))
    } else {
        None
    }
}

/// `after` is `before` turned a quarter and moved to `p`: the rotation
/// state advances, lock progress restarts if the piece was locking, and the
/// rest stays.
pub open spec fn turned_to(before: Tetromino, after: Tetromino, clockwise: bool, p: Point) -> bool {
    &&& after.mat@ == before.mat@.turned(clockwise)
    &&& after.rot_index == next_rot(before.rot_index as int, clockwise)
    &&& after.pos == p
    &&& after.lock_counter == if before.locking {
        0
    } else {
        before.lock_counter
    }
    &&& after.spawn_pos == before.spawn_pos
    &&& after.width == before.width
    &&& after.kind == before.kind
    &&& after.entry_timer == before.entry_timer
    &&& after.locking == before.locking
    &&& after.sonic_lock == before.sonic_lock
    &&& after.held == before.held
}

proof fn lemma_first_kick_unique(b: Board, m: Grid, pos: Point, from: int, i_piece: bool, a1: int, a2: int)
    requires
        first_kick(b, m, pos, from, i_piece, a1),
        first_kick(b, m, pos, from, i_piece, a2),
    ensures
        a1 == a2,
{
    if a1 < a2 {
        assert(!kick_ok(b, m, pos, from, i_piece, a1));
    } else if a2 < a1 {
        assert(!kick_ok(b, m, pos, from, i_piece, a2));
    }
}

/// A rotation target is a legal placement of the turned matrix.
pub proof fn lemma_target_legal(b: Board, t: Tetromino, clockwise: bool)
    ensures
        rotation_target(b, t, clockwise) matches Some(p) ==> legal(b, t.mat@.turned(clockwise), p),
{
    let m = t.mat@.turned(clockwise);
    let i_piece = t.kind == TetrominoType::I;
    if !legal(b, m, t.pos) && exists|a: int| first_kick(b, m, t.pos, t.rot_index as int, i_piece, a) {
        let a = choose|a: int| first_kick(b, m, t.pos, t.rot_index as int, i_piece, a);
        assert(kick_ok(b, m, t.pos, t.rot_index as int, i_piece, a));
    }
}

/// When the turned matrix does not fit in place, the turn lands at the
/// first kick that works.
pub proof fn lemma_target_first_kick(b: Board, t: Tetromino, clockwise: bool, a: int)
    requires
        !legal(b, t.mat@.turned(clockwise), t.pos),
        first_kick(b, t.mat@.turned(clockwise), t.pos, t.rot_index as int, t.kind == TetrominoType::I, a),
    ensures
        rotation_target(b, t, clockwise) == Some(
            point_of(
                kick_point(t.pos, t.rot_index as int, t.kind == TetrominoType::I, a).0,
                kick_point(t.pos, t.rot_index as int, t.kind == TetrominoType::I, a).1,
            ),
        ),
{
    let m = t.mat@.turned(clockwise);
    let ip = t.kind == TetrominoType::I;
    assert(exists|c: int| first_kick(b, m, t.pos, t.rot_index as int, ip, c));
    let c = choose|c: int| first_kick(b, m, t.pos, t.rot_index as int, ip, c);
    lemma_first_kick_unique(b, m, t.pos, t.rot_index as int, ip, a, c);
    let q = kick_point(t.pos, t.rot_index as int, ip, c);
    assert(rotation_target(b, t, clockwise) == Some(point_of(q.0, q.1)));
}

/// Turns the piece a quarter, clockwise or not. The O piece never turns.
/// A turn that fits in place, or after the first kick that fits, is
/// applied and marks the ghost for recomputation; otherwise nothing
/// changes.
pub fn rotate(clockwise: bool, tetromino: &mut Tetromino, placed: &Board, ghost_piece: &mut GhostPiece)
    requires
        old(tetromino).wf(),
        placed.wf(),
    ensures
        final(tetromino).wf(),
        old(tetromino).kind == TetrominoType::O || rotation_target(*placed, *old(tetromino), clockwise)
            is None ==> *final(tetromino) == *old(tetromino) && *final(ghost_piece) == *old(ghost_piece),
        old(tetromino).kind != TetrominoType::O && rotation_target(
            *placed,
            *old(tetromino),
            clockwise,
        ) is Some ==> {
            &&& turned_to(
                *old(tetromino),
                *final(tetromino),
                clockwise,
                rotation_target(*placed, *old(tetromino), clockwise)->0,
            )
            &&& final(ghost_piece).dirty
            &&& final(ghost_piece).pos == old(ghost_piece).pos
        },
{
    if tetromino.kind == TetrominoType::O {
        return;
    }
    proof {
        lemma_rotation_states(tetromino.kind, tetromino.rot_index as int);
    }
    let ghost t0 = *tetromino;
    let mut cand = *tetromino;
    cand.mat = if clockwise {
        tetromino.mat.rotate_clockwise()
    } else {
        tetromino.mat.rotate_counter_clockwise()
    };
    let new_rot = if clockwise {
        (tetromino.rot_index + 1) % 4
    } else {
        (tetromino.rot_index + 3) % 4
    };
    assert(cand.mat@ == tetromino.mat@.turned(clockwise));
    let target = if fits(&cand, placed, &cand.pos) {
        Some(cand.pos)
    } else {
        match mat3_super_kick(tetromino.kind == TetrominoType::I, &cand, placed) {
            Ok(p) => {
                proof {
                    let m = t0.mat@.turned(clockwise);
                    let ip = t0.kind == TetrominoType::I;
                    let a = choose|a: int| first_kick(*placed, m, t0.pos, t0.rot_index as int, ip, a);
                    let a2 = choose|a: int|
                        {
                            &&& first_kick(*placed, m, cand.pos, cand.rot_index as int, ip, a)
                            &&& p == point_of(
                                #[trigger] kick_point(cand.pos, cand.rot_index as int, ip, a).0,
                                kick_point(cand.pos, cand.rot_index as int, ip, a).1,
                            )
                        };
                    lemma_first_kick_unique(*placed, m, cand.pos, cand.rot_index as int, ip, a, a2);
                    assert(rotation_target(*placed, t0, clockwise) == Some(p));
                }
                Some(p)
            },
            Err(_) => {
                proof {
                    let m = t0.mat@.turned(clockwise);
                    let ip = t0.kind == TetrominoType::I;
                    if exists|a: int| first_kick(*placed, m, t0.pos, t0.rot_index as int, ip, a) {
                        let a = choose|a: int| first_kick(*placed, m, t0.pos, t0.rot_index as int, ip, a);
                        assert(kick_ok(*placed, cand.mat@, cand.pos, cand.rot_index as int, ip, a));
                    }
                }
                assert(rotation_target(*placed, t0, clockwise) is None);
                None
            },
        }
    };
    assert(target == rotation_target(*placed, t0, clockwise));
    match target {
        Some(p) => {
            tetromino.mat = cand.mat;
            tetromino.pos = p;
            tetromino.rot_index = new_rot;
            ghost_piece.dirty = true;
            if tetromino.locking {
                tetromino.lock_counter = 0;
            }
        },
        None => {},
    }
}

} // verus!
