use tetris::board::{
    apply_gravity, completed_lines, despawn_blocks, place_blocks, remove_lines, rel_xy_idx, xy_idx,
    Block, Board,
};
use tetris::collision::{
    bottom_collision, can_translate, fits, left_block_collision, right_block_collision,
    should_commit_tetromino, vertical_block_collision, wall_collision,
};
use tetris::piece::{GhostPiece, Point, Tetromino, TetrominoType};
use tetris::scoring::{calculate_score, get_level_gravity_max, level_for_lines};
use tetris::srs::rotate;

fn block() -> Option<Block> {
    Some(Block { kind: TetrominoType::I })
}

fn fill_row(b: &mut Board, y: usize, except: &[usize]) {
    for x in 0..b.width {
        if !except.contains(&x) {
            b.set_cell(x, y, block());
        }
    }
}

fn row_pattern(b: &Board, y: usize) -> Vec<bool> {
    (0..b.width).map(|x| b.is_occupied(x as i32, y as i32)).collect()
}

#[test]
fn index_helpers() {
    assert_eq!(xy_idx(3, 2), 23);
    assert_eq!(rel_xy_idx(1, 2, 4), 9);
}

#[test]
fn empty_board_has_no_full_rows() {
    let b = Board::new(10, 22);
    assert!(completed_lines(&b).is_empty());
}

#[test]
fn full_board_lists_every_row() {
    for w in [1usize, 3, 10] {
        let mut b = Board::new(w, 4);
        for y in 0..4 {
            fill_row(&mut b, y, &[]);
        }
        assert_eq!(completed_lines(&b), vec![0, 1, 2, 3]);
    }
}

#[test]
fn i_pieces_and_a_last_cell_complete_the_floor_row() {
    let mut b = Board::new(10, 22);
    let mut i = Tetromino::new(TetrominoType::I);
    // Horizontal bars lie in row c = 2 of their box.
    i.pos = Point { x: 0, y: -2 };
    place_blocks(&mut b, &i.relative_points(&i.pos), Block { kind: TetrominoType::I });
    i.pos = Point { x: 4, y: -2 };
    place_blocks(&mut b, &i.relative_points(&i.pos), Block { kind: TetrominoType::I });
    b.set_cell(8, 0, block());
    assert!(completed_lines(&b).is_empty());
    assert_eq!(row_pattern(&b, 0), vec![true, true, true, true, true, true, true, true, true, false]);
    // A vertical bar drops into the gap at column 9.
    let mut v = Tetromino::new(TetrominoType::I);
    let mut g = GhostPiece { pos: v.pos, dirty: false };
    rotate(true, &mut v, &Board::new(10, 22), &mut g);
    v.pos = Point { x: 7, y: 0 };
    assert!(fits(&v, &b, &v.pos));
    place_blocks(&mut b, &v.relative_points(&v.pos), Block { kind: TetrominoType::I });
    assert_eq!(completed_lines(&b), vec![0]);
    assert_eq!(calculate_score(1, false), 80);
}

#[test]
fn clear_and_compact_drop_the_rows_above() {
    let mut b = Board::new(4, 5);
    fill_row(&mut b, 0, &[]);
    fill_row(&mut b, 1, &[0, 1]);
    fill_row(&mut b, 2, &[]);
    fill_row(&mut b, 3, &[3]);
    b.set_cell(2, 4, block());
    let rows = completed_lines(&b);
    assert_eq!(rows, vec![0, 2]);
    despawn_blocks(&mut b, &rows);
    assert_eq!(row_pattern(&b, 0), vec![false; 4]);
    assert_eq!(row_pattern(&b, 1), vec![false, false, true, true]);
    apply_gravity(&mut b, &rows);
    assert_eq!(row_pattern(&b, 0), vec![false, false, true, true]);
    assert_eq!(row_pattern(&b, 1), vec![true, true, true, false]);
    assert_eq!(row_pattern(&b, 2), vec![false, false, true, false]);
    assert_eq!(row_pattern(&b, 3), vec![false; 4]);
    assert_eq!(row_pattern(&b, 4), vec![false; 4]);
}

#[test]
fn remove_lines_keeps_block_kinds() {
    let mut b = Board::new(3, 3);
    fill_row(&mut b, 0, &[]);
    b.set_cell(1, 1, Some(Block { kind: TetrominoType::T }));
    remove_lines(&mut b, &vec![0]);
    assert_eq!(b.cells[1], Some(Block { kind: TetrominoType::T }));
    assert_eq!(b.cells[4], None);
}

#[test]
fn occupancy_outside_the_grid_is_empty() {
    let mut b = Board::new(2, 2);
    fill_row(&mut b, 0, &[]);
    fill_row(&mut b, 1, &[]);
    assert!(b.is_occupied(1, 1));
    assert!(!b.is_occupied(-1, 0));
    assert!(!b.is_occupied(2, 0));
    assert!(!b.is_occupied(0, 2));
    assert!(!b.is_occupied(0, -1));
}

#[test]
fn resting_on_the_floor_on_a_block_and_in_the_air() {
    let mut b = Board::new(10, 22);
    let mut t = Tetromino::new(TetrominoType::T);
    // Flat side in row c = 1 of the box.
    t.pos = Point { x: 3, y: -1 };
    assert!(bottom_collision(&t, &t.pos));
    assert!(should_commit_tetromino(&t, &t.pos, &b));
    t.pos = Point { x: 3, y: 4 };
    assert!(!bottom_collision(&t, &t.pos));
    assert!(!should_commit_tetromino(&t, &t.pos, &b));
    b.set_cell(5, 4, block());
    assert!(vertical_block_collision(&b, &t, &t.pos));
    assert!(should_commit_tetromino(&t, &t.pos, &b));
}

#[test]
fn walls_and_side_blocks() {
    let mut b = Board::new(10, 22);
    let mut t = Tetromino::new(TetrominoType::O);
    t.pos = Point { x: -1, y: 3 };
    assert!(!wall_collision(&t, &t.pos));
    assert!(wall_collision(&t, &Point { x: -2, y: 3 }));
    assert!(!wall_collision(&t, &Point { x: 7, y: 3 }));
    assert!(wall_collision(&t, &Point { x: 8, y: 3 }));
    assert!(wall_collision(&t, &Point { x: 2, y: -3 }));
    b.set_cell(2, 5, block());
    assert!(right_block_collision(&b, &t, &t.pos));
    assert!(!left_block_collision(&b, &t, &t.pos));
    assert!(!can_translate(&t, &b, &Point { x: 0, y: 3 }));
    assert!(can_translate(&t, &b, &Point { x: -2, y: 3 }) == false);
    assert!(!can_translate(&t, &b, &t.pos));
    t.pos = Point { x: 3, y: 3 };
    assert!(!left_block_collision(&b, &t, &t.pos));
    b.set_cell(3, 5, block());
    assert!(left_block_collision(&b, &t, &t.pos));
    assert!(can_translate(&t, &b, &Point { x: 4, y: 3 }));
    assert!(!can_translate(&t, &b, &Point { x: 2, y: 3 }));
}

#[test]
fn score_table() {
    assert_eq!(calculate_score(1, false), 80);
    assert_eq!(calculate_score(2, false), 300);
    assert_eq!(calculate_score(3, false), 1200);
    assert_eq!(calculate_score(4, false), 6000);
    assert_eq!(calculate_score(1, true), 880);
    assert_eq!(calculate_score(4, true), 8000);
    assert_eq!(calculate_score(0, false), 0);
}

#[test]
fn levels_and_gravity() {
    assert_eq!(level_for_lines(0), 0);
    assert_eq!(level_for_lines(19), 1);
    assert_eq!(level_for_lines(305), 30);
    assert_eq!(level_for_lines(10000), 30);
    assert_eq!(get_level_gravity_max(0), 48);
    assert_eq!(get_level_gravity_max(8), 8);
    assert_eq!(get_level_gravity_max(9), 6);
    assert_eq!(get_level_gravity_max(12), 5);
    assert_eq!(get_level_gravity_max(15), 4);
    assert_eq!(get_level_gravity_max(18), 3);
    assert_eq!(get_level_gravity_max(28), 2);
    assert_eq!(get_level_gravity_max(30), 1);
}
