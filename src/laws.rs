//! Laws relating several operations of the library, each proved from the
//! contracts of the operations it speaks of.
use vstd::prelude::*;
use crate::board::{Board, count_below, lists_full_rows, rows_cleared, rows_compacted, valid_rows};
use crate::game::{
    FrameInput, GameState, advanced, commit_effect, commits, on_surface, sat_add, settled,
    t_spin_shape, with_locking,
};
use crate::piece::{Tetromino, TetrominoType};
use crate::scoring::{level_for, score_for};
use crate::srs::{first_kick, kick_ok, kick_point, point_of, rotation_target};
use crate::shape::{Shape, cw_pow, lemma_four_turns, lemma_turns_cancel};

verus! {

/// A clockwise quarter turn followed by a counter-clockwise one gives the
/// matrix back, and so does the reverse order, and so do four clockwise
/// turns.
pub proof fn lemma_turn_round_trip(m: Shape)
    requires
        m.wf(),
    ensures
        m@.turned(true).turned(false) == m@,
        m@.turned(false).turned(true) == m@,
        m@.turned(true).turned(true).turned(true).turned(true) == m@,
{
    let n = m.size as int;
    let s = m.cells@;
    lemma_turns_cancel(n, s);
    lemma_four_turns(n, s);
    assert(cw_pow(n, s, 0) == s);
    assert(cw_pow(n, s, 1) == m@.turned(true).cells);
    assert(cw_pow(n, s, 2) == m@.turned(true).turned(true).cells);
    assert(cw_pow(n, s, 3) == m@.turned(true).turned(true).turned(true).cells);
    assert(cw_pow(n, s, 4) == m@.turned(true).turned(true).turned(true).turned(true).cells);
}

proof fn lemma_rows_identity(b: Board, rows: Seq<usize>, k: int)
    requires
        b.wf(),
        b.is_full(),
        lists_full_rows(b, rows),
        0 <= k <= b.height,
    ensures
        k <= rows.len(),
        forall|j: int| 0 <= j < k ==> rows[j] == j,
    decreases k,
{
    if k > 0 {
        lemma_rows_identity(b, rows, k - 1);
        let y = k - 1;
        assert(b.row_full(y));
        let i = choose|i: int| 0 <= i < rows.len() && rows[i] == y;
        if i < y {
            assert(rows[i] == i);
        } else if i > y {
            assert(rows[y] < rows[i]);
            if y > 0 {
                assert(rows[y - 1] < rows[y]);
                assert(rows[y - 1] == y - 1);
            }
        }
    }
}

/// The full rows of an empty board are none; those of a board whose cells
/// all hold blocks are all its rows, bottom to top, whatever its width.
pub proof fn lemma_completed_lines_extremes(b: Board, rows: Seq<usize>)
    requires
        b.wf(),
        lists_full_rows(b, rows),
    ensures
        b.is_empty() ==> rows.len() == 0,
        b.is_full() ==> rows.len() == b.height && forall|j: int|
            0 <= j < rows.len() ==> rows[j] == j,
{
    if b.is_empty() && rows.len() > 0 {
        let y = rows[0] as int;
        assert(b.row_full(y));
        assert(b.row_empty(y));
        assert(b.cell(0, y) is Some);
    }
    if b.is_full() {
        lemma_rows_identity(b, rows, b.height as int);
        if rows.len() > b.height {
            let y = b.height as int;
            assert(rows[y] < b.height);
            assert(rows[y - 1] < rows[y]);
            lemma_rows_identity(b, rows, b.height as int);
            assert(rows[y - 1] == y - 1);
        }
    }
}

/// Clearing rows and then compacting them keeps every other row, in the
/// same order, moved down by the number of cleared rows beneath it: a row
/// with a cleared row beneath it does not keep its index, and the top
/// `rows.len()` rows end up empty.
pub proof fn lemma_clear_then_compact(b0: Board, b1: Board, b2: Board, rows: Seq<usize>)
    requires
        b0.wf(),
        valid_rows(rows, b0.height as int),
        rows_cleared(b0, b1, rows),
        rows_compacted(b1, b2, rows),
    ensures
        b0.same_dims(&b2),
        forall|x: int, y: int|
            #![trigger b0.cell(x, y)]
            b0.in_bounds(x, y) && !rows.contains(y as usize) ==> b2.cell(x, y - count_below(rows, y))
                == b0.cell(x, y),
        forall|y1: int, y2: int|
            0 <= y1 < y2 < b0.height && !rows.contains(y1 as usize) && !rows.contains(y2 as usize)
                ==> #[trigger] count_below(rows, y1) + (y2 - y1) > #[trigger] count_below(rows, y2),
        forall|y: int|
            0 <= y < b0.height && !rows.contains(y as usize) && #[trigger] count_below(rows, y) > 0
                ==> y - count_below(rows, y) < y,
        forall|y: int|
            0 <= y < b0.height && !rows.contains(y as usize) ==> 0 <= y - #[trigger] count_below(rows, y)
                < b0.height - rows.len(),
        forall|x: int, y: int|
            #![trigger b2.cell(x, y)]
            b0.in_bounds(x, y) && y >= b0.height - rows.len() ==> b2.cell(x, y) is None,
{
    assert forall|x: int, y: int|
        #![trigger b0.cell(x, y)]
        b0.in_bounds(x, y) && !rows.contains(y as usize) implies b2.cell(x, y - count_below(rows, y))
        == b0.cell(x, y) by {
        assert(b1.cell(x, y) == b0.cell(x, y));
    }
    assert forall|y1: int, y2: int|
        0 <= y1 < y2 < b0.height && !rows.contains(y1 as usize) && !rows.contains(y2 as usize)
            implies #[trigger] count_below(rows, y1) + (y2 - y1) > #[trigger] count_below(rows, y2) by {
        crate::board::lemma_count_step(rows, y1);
        crate::board::lemma_count_mono(rows, y1 + 1, y2);
    }
    assert forall|y: int|
        0 <= y < b0.height && !rows.contains(y as usize) implies 0 <= y - #[trigger] count_below(
        rows,
        y,
    ) < b0.height - rows.len() by {
        crate::board::lemma_count_zero(rows);
        crate::board::lemma_count_all(rows, b0.height as int);
        crate::board::lemma_count_step(rows, y);
        crate::board::lemma_count_mono(rows, 0, y);
        crate::board::lemma_count_mono(rows, y + 1, b0.height as int);
    }
}

/// A hard-dropped piece commits on the frame it touches down, whatever its
/// lock counter.
pub proof fn lemma_hard_drop_commits(before: GameState, after: GameState)
    requires
        settled(before, after),
        before.current.sonic_lock,
        on_surface(before),
    ensures
        commits(before),
        commit_effect(with_locking(before), after),
{
}

/// The game tops out on a frame exactly when the piece commits while still
/// at its spawn position.
pub proof fn lemma_topout_iff_spawn_commit(before: GameState, after: GameState)
    requires
        !before.score.topout,
        settled(before, after),
    ensures
        after.score.topout <==> (commits(before) && before.current.pos == before.current.spawn_pos),
{
}

/// When an I piece cannot turn in place but the first I-kick offset of its
/// rotation state gives a legal placement, the turn lands shifted by exactly
/// that offset.
pub proof fn lemma_i_piece_first_kick(b: Board, t: Tetromino, clockwise: bool)
    requires
        t.kind == TetrominoType::I,
        !crate::collision::legal(b, t.mat@.turned(clockwise), t.pos),
        kick_ok(b, t.mat@.turned(clockwise), t.pos, t.rot_index as int, true, 0),
    ensures
        rotation_target(b, t, clockwise) == Some(
            point_of(
                kick_point(t.pos, t.rot_index as int, true, 0).0,
                kick_point(t.pos, t.rot_index as int, true, 0).1,
            ),
        ),
{
    let m = t.mat@.turned(clockwise);
    assert(first_kick(b, m, t.pos, t.rot_index as int, t.kind == TetrominoType::I, 0));
    crate::srs::lemma_target_first_kick(b, t, clockwise, 0);
}

/// The commit from `before` to `after` earns the T-spin bonus: a T piece,
/// last moved by a turn, whose counted neighbours are all filled once placed.
pub open spec fn t_spin_commit(before: GameState, after: GameState) -> bool {
    let t = before.current;
    t.kind == TetrominoType::T && before.last_input == FrameInput::Rotate && t_spin_shape(
        after.placed_blocks,
        t.mat@,
        t.pos,
        t.rot_index as int,
    )
}

/// A list of the full rows of a board with exactly one full row `y` is `[y]`.
proof fn lemma_single_full_row(b: Board, rows: Seq<usize>, y: int)
    requires
        lists_full_rows(b, rows),
        0 <= y < b.height,
        b.row_full(y),
        forall|z: int| 0 <= z < b.height && #[trigger] b.row_full(z) ==> z == y,
    ensures
        rows == seq![y as usize],
{
    let i = choose|i: int| 0 <= i < rows.len() && rows[i] == y;
    assert forall|j: int| 0 <= j < rows.len() implies rows[j] == y by {
        assert(b.row_full(rows[j] as int));
    }
    if rows.len() > 1 {
        assert(rows[0] < rows[1]);
    }
    assert(rows =~= seq![y as usize]);
}

/// Committing a piece away from its spawn position so that exactly one row
/// is full schedules that row for removal and scores `40 * 2 = 80` points,
/// plus `400 * 2` for a T piece turned into a notch whose counted neighbours
/// are all filled.
pub proof fn lemma_single_row_commit(before: GameState, after: GameState, y: int)
    requires
        before.wf(),
        commit_effect(before, after),
        before.current.pos != before.current.spawn_pos,
        0 <= y < after.placed_blocks.height,
        after.placed_blocks.row_full(y),
        forall|z: int|
            0 <= z < after.placed_blocks.height && #[trigger] after.placed_blocks.row_full(z) ==> z
                == y,
        before.score.val + 880 <= u64::MAX,
        before.score.lines < usize::MAX,
    ensures
        (after.line_clear matches Some(lc) && lc.lines@ == seq![y as usize] && lc.y_pos == y
            && lc.counter == 0),
        after.score.lines == before.score.lines + 1,
        after.score.val == before.score.val + (if t_spin_commit(before, after) {
            880int
        } else {
            80int
        }),
{
    assert(!(forall|z: int|
        0 <= z < crate::piece::WELL_HEIGHT ==> !#[trigger] after.placed_blocks.row_full(z)));
    let lc = after.line_clear->0;
    lemma_single_full_row(after.placed_blocks, lc.lines@, y);
    assert(lc.lines@.len() == 1);
    assert(score_for(1, true) == 880);
    assert(score_for(1, false) == 80);
}

proof fn lemma_level_monotone(a: int, b: int)
    requires
        0 <= a <= b,
    ensures
        level_for(a) <= level_for(b),
{
    assert(a / 10 <= b / 10) by (nonlinear_arith)
        requires
            0 <= a <= b,
    ;
}

/// Over one frame of play the score, the line count and the level never
/// decrease, and a topped-out game stays topped out.
pub proof fn lemma_tick_monotone(before: GameState, mid: GameState, after: GameState)
    requires
        before.wf(),
        mid.wf(),
        after.wf(),
        advanced(before, mid),
        settled(mid, after),
    ensures
        after.score.val >= before.score.val,
        after.score.lines >= before.score.lines,
        after.score.level >= before.score.level,
        before.score.topout ==> after.score.topout,
{
    lemma_level_monotone(before.score.lines as int, after.score.lines as int);
}

} // verus!
