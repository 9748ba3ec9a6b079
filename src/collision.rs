//! Collision queries of a piece's footprint against the well's walls and
//! floor and against the placed blocks.
use vstd::prelude::*;
use crate::board::Board;
use crate::piece::{Point, Tetromino, covers, in_range, WELL_WIDTH, POS_LIMIT};
use crate::shape::{Grid, grid_wf};

verus! {

/// The footprint of `m` at `pos` reaches past a side wall or below the
/// floor. The well has no ceiling.
pub open spec fn wall_hit(m: Grid, pos: Point) -> bool {
    exists|x: int, y: int| #[trigger] covers(m, pos, x, y) && (x < 0 || x >= WELL_WIDTH || y < 0)
}

/// Some cell of the footprint lies on the floor row.
pub open spec fn floor_hit(m: Grid, pos: Point) -> bool {
    exists|x: int, y: int| #[trigger] covers(m, pos, x, y) && y == 0
}

/// Some cell of the footprint has a block right beneath it.
pub open spec fn below_hit(b: Board, m: Grid, pos: Point) -> bool {
    exists|x: int, y: int| #[trigger] covers(m, pos, x, y) && b.occupied(x, y - 1)
}

/// Some cell of the footprint has a block right of it.
pub open spec fn right_hit(b: Board, m: Grid, pos: Point) -> bool {
    exists|x: int, y: int| #[trigger] covers(m, pos, x, y) && b.occupied(x + 1, y)
}

/// Some cell of the footprint has a block left of it.
pub open spec fn left_hit(b: Board, m: Grid, pos: Point) -> bool {
    exists|x: int, y: int| #[trigger] covers(m, pos, x, y) && b.occupied(x - 1, y)
}

/// Some cell of the footprint is taken by a block.
pub open spec fn overlap(b: Board, m: Grid, pos: Point) -> bool {
    exists|x: int, y: int| #[trigger] covers(m, pos, x, y) && b.occupied(x, y)
}

/// The piece rests: on the floor, or on a block.
pub open spec fn resting(b: Board, m: Grid, pos: Point) -> bool {
    floor_hit(m, pos) || below_hit(b, m, pos)
}

/// The footprint stays inside the well and off every block.
pub open spec fn legal(b: Board, m: Grid, pos: Point) -> bool {
    !wall_hit(m, pos) && !overlap(b, m, pos)
}

/// A sideways move from `pos` to `new_pos`: the destination is inside the
/// walls and nothing blocks the first step in the direction of travel from
/// the current footprint. A move with no sideways part is refused.
pub open spec fn translate_ok(b: Board, m: Grid, pos: Point, new_pos: Point) -> bool {
    if new_pos.x < pos.x {
        !wall_hit(m, new_pos) && !left_hit(b, m, pos)
    } else if new_pos.x > pos.x {
        !wall_hit(m, new_pos) && !right_hit(b, m, pos)
    } else {
        false
    }
}

/// What `relative_points` promises of its result.
pub open spec fn lists_footprint(m: Grid, pos: Point, pts: Seq<Point>) -> bool {
    &&& forall|i: int| 0 <= i < pts.len() ==> covers(m, pos, #[trigger] pts[i].x as int, pts[i].y as int)
    &&& forall|x: int, y: int| #[trigger] covers(m, pos, x, y) ==> exists|i: int|
        0 <= i < pts.len() && #[trigger] pts[i].x == x && pts[i].y == y
}

/// A property holds of some listed point exactly when it holds of some cell
/// of the footprint.
proof fn lemma_some_point(m: Grid, pos: Point, pts: Seq<Point>, p: spec_fn(int, int) -> bool)
    requires
        lists_footprint(m, pos, pts),
    ensures
        (exists|i: int| 0 <= i < pts.len() && p(#[trigger] pts[i].x as int, pts[i].y as int)) == (exists|
            x: int,
            y: int,
        | #[trigger] covers(m, pos, x, y) && p(x, y)),
{
    if exists|i: int| 0 <= i < pts.len() && p(#[trigger] pts[i].x as int, pts[i].y as int) {
        let i = choose|i: int| 0 <= i < pts.len() && p(#[trigger] pts[i].x as int, pts[i].y as int);
        assert(covers(m, pos, pts[i].x as int, pts[i].y as int));
    }
    if exists|x: int, y: int| #[trigger] covers(m, pos, x, y) && p(x, y) {
        let (x, y) = choose|x: int, y: int| #[trigger] covers(m, pos, x, y) && p(x, y);
        let i = choose|i: int| 0 <= i < pts.len() && #[trigger] pts[i].x == x && pts[i].y == y;
        assert(p(pts[i].x as int, pts[i].y as int));
    }
}

/// Points of a footprint stay a few cells from a position within bounds.
proof fn lemma_point_bounds(m: Grid, pos: Point, pts: Seq<Point>, i: int)
    requires
        grid_wf(m.size, m.cells),
        in_range(pos),
        lists_footprint(m, pos, pts),
        0 <= i < pts.len(),
    ensures
        -POS_LIMIT <= pts[i].x <= POS_LIMIT + 4,
        -POS_LIMIT <= pts[i].y <= POS_LIMIT + 4,
{
    assert(covers(m, pos, pts[i].x as int, pts[i].y as int));
}

pub fn wall_collision(tetromino: &Tetromino, pos: &Point) -> (r: bool)
    requires
        tetromino.mat.wf(),
        in_range(*pos),
    ensures
        r == wall_hit(tetromino.mat@, *pos),
{
    let pts = tetromino.relative_points(pos);
    let mut k: usize = 0;
    while k < pts.len()
        invariant
            lists_footprint(tetromino.mat@, *pos, pts@),
            k <= pts@.len(),
            forall|j: int| 0 <= j < k ==> !(#[trigger] pts@[j].x < 0 || pts@[j].x >= WELL_WIDTH || pts@[j].y < 0),
        decreases pts@.len() - k,
    {
        if pts[k].x < 0 || pts[k].x >= WELL_WIDTH as i32 || pts[k].y < 0 {
            proof {
                lemma_some_point(tetromino.mat@, *pos, pts@, |x: int, y: int| x < 0 || x >= WELL_WIDTH || y < 0);
                assert((|x: int, y: int| x < 0 || x >= WELL_WIDTH || y < 0)(pts@[k as int].x as int, pts@[k as int].y as int));
            }
            return true;
        }
        k += 1;
    }
    proof {
        lemma_some_point(tetromino.mat@, *pos, pts@, |x: int, y: int| x < 0 || x >= WELL_WIDTH || y < 0);
    }
    false
}

pub fn bottom_collision(tetromino: &Tetromino, pos: &Point) -> (r: bool)
    requires
        tetromino.mat.wf(),
        in_range(*pos),
    ensures
        r == floor_hit(tetromino.mat@, *pos),
{
    let pts = tetromino.relative_points(pos);
    let mut k: usize = 0;
    while k < pts.len()
        invariant
            lists_footprint(tetromino.mat@, *pos, pts@),
            k <= pts@.len(),
            forall|j: int| 0 <= j < k ==> #[trigger] pts@[j].y != 0,
        decreases pts@.len() - k,
    {
        if pts[k].y == 0 {
            proof {
                lemma_some_point(tetromino.mat@, *pos, pts@, |x: int, y: int| y == 0);
                assert((|x: int, y: int| y == 0)(pts@[k as int].x as int, pts@[k as int].y as int));
            }
            return true;
        }
        k += 1;
    }
    proof {
        lemma_some_point(tetromino.mat@, *pos, pts@, |x: int, y: int| y == 0);
    }
    false
}

pub fn vertical_block_collision(placed: &Board, tetromino: &Tetromino, pos: &Point) -> (r: bool)
    requires
        placed.wf(),
        tetromino.mat.wf(),
        in_range(*pos),
    ensures
        r == below_hit(*placed, tetromino.mat@, *pos),
{
    let pts = tetromino.relative_points(pos);
    let mut k: usize = 0;
    while k < pts.len()
        invariant
            placed.wf(),
            tetromino.mat.wf(),
            in_range(*pos),
            lists_footprint(tetromino.mat@, *pos, pts@),
            k <= pts@.len(),
            forall|j: int| 0 <= j < k ==> !placed.occupied(#[trigger] pts@[j].x as int, pts@[j].y - 1),
        decreases pts@.len() - k,
    {
        proof {
            lemma_point_bounds(tetromino.mat@, *pos, pts@, k as int);
        }
        if placed.is_occupied(pts[k].x, pts[k].y - 1) {
            proof {
                lemma_some_point(tetromino.mat@, *pos, pts@, |x: int, y: int| placed.occupied(x, y - 1));
                assert((|x: int, y: int| placed.occupied(x, y - 1))(pts@[k as int].x as int, pts@[k as int].y as int));
            }
            return true;
        }
        k += 1;
    }
    proof {
        lemma_some_point(tetromino.mat@, *pos, pts@, |x: int, y: int| placed.occupied(x, y - 1));
    }
    false
}

pub fn right_block_collision(placed: &Board, tetromino: &Tetromino, pos: &Point) -> (r: bool)
    requires
        placed.wf(),
        tetromino.mat.wf(),
        in_range(*pos),
    ensures
        r == right_hit(*placed, tetromino.mat@, *pos),
{
    let pts = tetromino.relative_points(pos);
    let mut k: usize = 0;
    while k < pts.len()
        invariant
            placed.wf(),
            tetromino.mat.wf(),
            in_range(*pos),
            lists_footprint(tetromino.mat@, *pos, pts@),
            k <= pts@.len(),
            forall|j: int| 0 <= j < k ==> !placed.occupied(#[trigger] pts@[j].x + 1, pts@[j].y as int),
        decreases pts@.len() - k,
    {
        proof {
            lemma_point_bounds(tetromino.mat@, *pos, pts@, k as int);
        }
        if placed.is_occupied(pts[k].x + 1, pts[k].y) {
            proof {
                lemma_some_point(tetromino.mat@, *pos, pts@, |x: int, y: int| placed.occupied(x + 1, y));
                assert((|x: int, y: int| placed.occupied(x + 1, y))(pts@[k as int].x as int, pts@[k as int].y as int));
            }
            return true;
        }
        k += 1;
    }
    proof {
        lemma_some_point(tetromino.mat@, *pos, pts@, |x: int, y: int| placed.occupied(x + 1, y));
    }
    false
}

pub fn left_block_collision(placed: &Board, tetromino: &Tetromino, pos: &Point) -> (r: bool)
    requires
        placed.wf(),
        tetromino.mat.wf(),
        in_range(*pos),
    ensures
        r == left_hit(*placed, tetromino.mat@, *pos),
{
    let pts = tetromino.relative_points(pos);
    let mut k: usize = 0;
    while k < pts.len()
        invariant
            placed.wf(),
            tetromino.mat.wf(),
            in_range(*pos),
            lists_footprint(tetromino.mat@, *pos, pts@),
            k <= pts@.len(),
            forall|j: int| 0 <= j < k ==> !placed.occupied(#[trigger] pts@[j].x - 1, pts@[j].y as int),
        decreases pts@.len() - k,
    {
        proof {
            lemma_point_bounds(tetromino.mat@, *pos, pts@, k as int);
        }
        if placed.is_occupied(pts[k].x - 1, pts[k].y) {
            proof {
                lemma_some_point(tetromino.mat@, *pos, pts@, |x: int, y: int| placed.occupied(x - 1, y));
                assert((|x: int, y: int| placed.occupied(x - 1, y))(pts@[k as int].x as int, pts@[k as int].y as int));
            }
            return true;
        }
        k += 1;
    }
    proof {
        lemma_some_point(tetromino.mat@, *pos, pts@, |x: int, y: int| placed.occupied(x - 1, y));
    }
    false
}

/// Whether some cell of the footprint is taken by a block.
pub fn block_overlap(placed: &Board, tetromino: &Tetromino, pos: &Point) -> (r: bool)
    requires
        placed.wf(),
        tetromino.mat.wf(),
        in_range(*pos),
    ensures
        r == overlap(*placed, tetromino.mat@, *pos),
{
    let pts = tetromino.relative_points(pos);
    let mut k: usize = 0;
    while k < pts.len()
        invariant
            placed.wf(),
            tetromino.mat.wf(),
            in_range(*pos),
            lists_footprint(tetromino.mat@, *pos, pts@),
            k <= pts@.len(),
            forall|j: int| 0 <= j < k ==> !placed.occupied(#[trigger] pts@[j].x as int, pts@[j].y as int),
        decreases pts@.len() - k,
    {
        proof {
            lemma_point_bounds(tetromino.mat@, *pos, pts@, k as int);
        }
        if placed.is_occupied(pts[k].x, pts[k].y) {
            proof {
                lemma_some_point(tetromino.mat@, *pos, pts@, |x: int, y: int| placed.occupied(x, y));
                assert((|x: int, y: int| placed.occupied(x, y))(pts@[k as int].x as int, pts@[k as int].y as int));
            }
            return true;
        }
        k += 1;
    }
    proof {
        lemma_some_point(tetromino.mat@, *pos, pts@, |x: int, y: int| placed.occupied(x, y));
    }
    false
}

/// Whether the piece rests on the floor or on a block at `pos`.
pub fn should_commit_tetromino(tetromino: &Tetromino, pos: &Point, placed: &Board) -> (r: bool)
    requires
        placed.wf(),
        tetromino.mat.wf(),
        in_range(*pos),
    ensures
        r == resting(*placed, tetromino.mat@, *pos),
{
    bottom_collision(tetromino, pos) || vertical_block_collision(placed, tetromino, pos)
}

/// Whether the piece, with its matrix as it is, may stand at `pos`.
pub fn fits(tetromino: &Tetromino, placed: &Board, pos: &Point) -> (r: bool)
    requires
        placed.wf(),
        tetromino.mat.wf(),
        in_range(*pos),
    ensures
        r == legal(*placed, tetromino.mat@, *pos),
{
    !wall_collision(tetromino, pos) && !block_overlap(placed, tetromino, pos)
}

/// Whether the piece may move sideways from its position to `new_pos`.
pub fn can_translate(tetromino: &Tetromino, placed: &Board, new_pos: &Point) -> (r: bool)
    requires
        placed.wf(),
        tetromino.mat.wf(),
        in_range(tetromino.pos),
        in_range(*new_pos),
    ensures
        r == translate_ok(*placed, tetromino.mat@, tetromino.pos, *new_pos),
{
    if new_pos.x < tetromino.pos.x {
        return !wall_collision(tetromino, new_pos) && !left_block_collision(
            placed,
            tetromino,
            &tetromino.pos,
        );
    } else if new_pos.x > tetromino.pos.x {
        return !wall_collision(tetromino, new_pos) && !right_block_collision(
            placed,
            tetromino,
            &tetromino.pos,
        );
    }
    false
}

} // verus!
