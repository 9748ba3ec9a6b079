//! Points for cleared lines, the level reached, and the gravity speed of
//! each level.
use vstd::prelude::*;
use crate::piece::WELL_HEIGHT;

verus! {

/// Highest level.
pub const MAX_LEVEL: usize = 30;

/// Lines to clear per level.
pub const LINES_PER_LEVEL: usize = 10;

/// Points per line count, before the `(lines + 1)` factor.
pub open spec fn line_points(lines: int) -> int {
    if lines == 1 {
        40
    } else if lines == 2 {
        100
    } else if lines == 3 {
        300
    } else if lines == 4 {
        1200
    } else {
        0
    }
}

/// Points for clearing `lines` rows at once, with the T-spin bonus.
pub open spec fn score_for(lines: int, t_spin: bool) -> int {
    line_points(lines) * (lines + 1) + if t_spin {
        400 * (lines + 1)
    } else {
        0
    }
}

/// The level reached after clearing `lines` rows in all.
pub open spec fn level_for(lines: int) -> int {
    if lines / 10 > 30 {
        30
    } else {
        lines / 10
    }
}

/// Frames between two gravity steps at `level`.
pub open spec fn gravity_frames(level: int) -> int {
    if level <= 8 {
        48 - 5 * level
    } else if level == 9 {
        6
    } else if level <= 12 {
        5
    } else if level <= 15 {
        4
    } else if level <= 18 {
        3
    } else if level <= 28 {
        2
    } else {
        1
    }
}

/// Points for clearing `lines` rows at once; a T-spin adds
/// `400 * (lines + 1)`.
pub fn calculate_score(lines: usize, t_spin: bool) -> (score: u64)
    requires
        lines <= WELL_HEIGHT,
    ensures
        score == score_for(lines as int, t_spin),
{
    let n = lines as u64;
    let mut score: u64 = if n == 1 {
        40 * (n + 1)
    } else if n == 2 {
        100 * (n + 1)
    } else if n == 3 {
        300 * (n + 1)
    } else if n == 4 {
        1200 * (n + 1)
    } else {
        0
    };
    if t_spin {
        score = score + 400 * (n + 1);
    }
    score
}

/// The level reached after clearing `lines` rows in all.
pub fn level_for_lines(lines: usize) -> (level: usize)
    ensures
        level == level_for(lines as int),
        level <= MAX_LEVEL,
{
    let l = lines / LINES_PER_LEVEL;
    if l > MAX_LEVEL {
        MAX_LEVEL
    } else {
        l
    }
}

/// Frames between two gravity steps at `level`.
pub fn get_level_gravity_max(level: usize) -> (frames: u32)
    ensures
        frames == gravity_frames(level as int),
        1 <= frames <= 48,
{
    if level <= 8 {
        48 - 5 * level as u32
    } else if level == 9 {
        6
    } else if level <= 12 {
        5
    } else if level <= 15 {
        4
    } else if level <= 18 {
        3
    } else if level <= 28 {
        2
    } else {
        1
    }
}

} // verus!
