use tetris::board::Board;
use tetris::piece::{
    kind_from_index, kind_index, reset_transform, spawn_position, tetromino_set, GhostPiece, Point,
    Tetromino, TetrominoType, KIND_COUNT,
};
use tetris::shape::Shape;
use tetris::srs::{kick_offset, mat3_super_kick, rotate, KickError};

fn empty_board() -> Board {
    Board::new(10, 22)
}

fn cells_of(t: &Tetromino) -> Vec<(i32, i32)> {
    let mut v: Vec<(i32, i32)> = t.relative_points(&t.pos).iter().map(|p| (p.x, p.y)).collect();
    v.sort();
    v
}

fn all_kinds() -> Vec<TetrominoType> {
    (0..KIND_COUNT).map(kind_from_index).collect()
}

#[test]
fn clockwise_then_counter_clockwise_restores_every_state() {
    for k in all_kinds() {
        let mut m: Shape = Tetromino::new(k).mat;
        for _ in 0..4 {
            let back = m.rotate_clockwise().rotate_counter_clockwise();
            assert_eq!(back.cells, m.cells);
            assert_eq!(back.size, m.size);
            let back2 = m.rotate_counter_clockwise().rotate_clockwise();
            assert_eq!(back2.cells, m.cells);
            m = m.rotate_clockwise();
        }
    }
}

#[test]
fn four_clockwise_turns_restore_the_matrix() {
    for k in all_kinds() {
        let m = Tetromino::new(k).mat;
        let r = m.rotate_clockwise().rotate_clockwise().rotate_clockwise().rotate_clockwise();
        assert_eq!(r.cells, m.cells);
        let once = m.rotate_clockwise();
        if k != TetrominoType::O {
            assert_ne!(once.cells, m.cells);
        }
    }
}

#[test]
fn spawn_positions_and_footprints() {
    let small = spawn_position(3);
    let large = spawn_position(4);
    assert_eq!((small.x, small.y), (3, 20));
    assert_eq!((large.x, large.y), (3, 20));
    let t = Tetromino::new(TetrominoType::T);
    assert_eq!(cells_of(&t), vec![(3, 21), (4, 21), (4, 22), (5, 21)]);
    let i = Tetromino::new(TetrominoType::I);
    assert_eq!(cells_of(&i), vec![(3, 22), (4, 22), (5, 22), (6, 22)]);
    let o = Tetromino::new(TetrominoType::O);
    assert_eq!(cells_of(&o), vec![(4, 22), (4, 23), (5, 22), (5, 23)]);
    let j = Tetromino::new(TetrominoType::J);
    assert_eq!(cells_of(&j), vec![(3, 21), (3, 22), (4, 21), (5, 21)]);
}

#[test]
fn catalog_holds_each_kind_once_in_order() {
    let set = tetromino_set();
    assert_eq!(set.len(), 7);
    for (i, t) in set.iter().enumerate() {
        assert_eq!(kind_index(t.kind), i);
        assert_eq!(t.rot_index, 0);
        assert_eq!(t.pos, t.spawn_pos);
        assert!(!t.held && !t.locking && !t.sonic_lock);
    }
}

#[test]
fn reset_transform_returns_to_spawn() {
    let board = empty_board();
    let mut t = Tetromino::new(TetrominoType::L);
    let mut g = GhostPiece { pos: t.pos, dirty: false };
    rotate(true, &mut t, &board, &mut g);
    t.pos = Point { x: 1, y: 4 };
    t.lock_counter = 7;
    reset_transform(&mut t);
    let fresh = Tetromino::new(TetrominoType::L);
    assert_eq!(t.rot_index, 0);
    assert_eq!(t.pos, fresh.pos);
    assert_eq!(t.mat.cells, fresh.mat.cells);
    assert_eq!(t.lock_counter, 7);
}

#[test]
fn rotation_in_open_space_turns_in_place() {
    let board = empty_board();
    let mut t = Tetromino::new(TetrominoType::T);
    t.pos = Point { x: 4, y: 8 };
    let mut g = GhostPiece { pos: t.pos, dirty: false };
    rotate(true, &mut t, &board, &mut g);
    assert_eq!(t.rot_index, 1);
    assert_eq!(t.pos, Point { x: 4, y: 8 });
    assert!(g.dirty);
    assert_eq!(cells_of(&t), vec![(5, 8), (5, 9), (5, 10), (6, 9)]);
    rotate(false, &mut t, &board, &mut g);
    assert_eq!(t.rot_index, 0);
    rotate(false, &mut t, &board, &mut g);
    assert_eq!(t.rot_index, 3);
}

#[test]
fn o_piece_never_turns() {
    let board = empty_board();
    let mut t = Tetromino::new(TetrominoType::O);
    let before = t.mat.cells;
    let mut g = GhostPiece { pos: t.pos, dirty: false };
    rotate(true, &mut t, &board, &mut g);
    assert_eq!(t.rot_index, 0);
    assert_eq!(t.mat.cells, before);
    assert!(!g.dirty);
}

#[test]
fn i_piece_kicks_off_the_right_wall() {
    let board = empty_board();
    let mut t = Tetromino::new(TetrominoType::I);
    let mut g = GhostPiece { pos: t.pos, dirty: false };
    rotate(true, &mut t, &board, &mut g);
    assert_eq!(t.rot_index, 1);
    t.pos = Point { x: 7, y: 5 };
    assert_eq!(cells_of(&t), vec![(9, 5), (9, 6), (9, 7), (9, 8)]);
    // A turn in place would put the bar across x = 7..10, past the wall.
    rotate(true, &mut t, &board, &mut g);
    let first = kick_offset(true, 4);
    assert_eq!(first, (-1, 0));
    assert_eq!(t.rot_index, 2);
    assert_eq!(t.pos, Point { x: 7 + first.0, y: 5 + first.1 });
    assert_eq!(cells_of(&t), vec![(6, 6), (7, 6), (8, 6), (9, 6)]);
}

#[test]
fn locking_piece_restarts_lock_progress_on_turn() {
    let board = empty_board();
    let mut t = Tetromino::new(TetrominoType::S);
    t.pos = Point { x: 4, y: 8 };
    t.locking = true;
    t.lock_counter = 12;
    let mut g = GhostPiece { pos: t.pos, dirty: false };
    rotate(true, &mut t, &board, &mut g);
    assert_eq!(t.lock_counter, 0);
}

#[test]
fn rotation_refused_when_every_kick_fails() {
    // A board full but for a vertical shaft of width one.
    let mut board = empty_board();
    for y in 0..22usize {
        for x in 0..10usize {
            if x != 4 {
                board.set_cell(x, y, Some(tetris::board::Block { kind: TetrominoType::Z }));
            }
        }
    }
    let mut t = Tetromino::new(TetrominoType::I);
    let mut g = GhostPiece { pos: t.pos, dirty: false };
    rotate(true, &mut t, &empty_board(), &mut g);
    t.pos = Point { x: 2, y: 6 };
    let before_pos = t.pos;
    let before_cells = t.mat.cells;
    let mut g2 = GhostPiece { pos: t.pos, dirty: false };
    rotate(true, &mut t, &board, &mut g2);
    assert_eq!(t.rot_index, 1);
    assert_eq!(t.pos, before_pos);
    assert_eq!(t.mat.cells, before_cells);
    assert!(!g2.dirty);
    let mut turned = t;
    turned.mat = t.mat.rotate_clockwise();
    assert_eq!(mat3_super_kick(true, &turned, &board), Err(KickError::Exhausted));
}

#[test]
fn kick_tables_start_as_listed() {
    assert_eq!(kick_offset(false, 0), (-1, 0));
    assert_eq!(kick_offset(false, 7), (1, 2));
    assert_eq!(kick_offset(true, 0), (-2, 0));
    assert_eq!(kick_offset(true, 15), (-2, 1));
}
