use tetris::board::Block;
use tetris::game::{
    commit_tetromino, drain_next_refill, get_game_state, hold_piece, new_game, play_input,
    play_update, random_tetrominos, rotate_piece, settle_piece, shift_piece, spawn_tetromino,
    update_ghost, FrameInput, FrameIntents, GameState, ENTRY_DELAY, LINE_CLEAR_DELAY, LOCK_DELAY,
    NEXT_COUNT, SOFT_DROP_GRAVITY,
};
use tetris::piece::{kind_index, tetromino_set, GhostPiece, Point, Tetromino, TetrominoType};
use tetris::srs::rotate;

fn game_with(current: TetrominoType, next: &[TetrominoType]) -> GameState {
    let set = tetromino_set();
    let mut queue: Vec<Tetromino> = next.iter().map(|k| Tetromino::new(*k)).collect();
    while queue.len() < NEXT_COUNT {
        queue.push(Tetromino::new(TetrominoType::O));
    }
    new_game(set, Tetromino::new(current), queue)
}

fn no_input() -> FrameIntents {
    FrameIntents {
        move_left: false,
        move_right: false,
        rotate_cw: false,
        rotate_ccw: false,
        soft_drop_on: false,
        soft_drop_off: false,
        hard_drop: false,
        hold: false,
        restart: false,
        toggle_debug: false,
    }
}

fn fill(gs: &mut GameState, x: usize, y: usize) {
    gs.placed_blocks.set_cell(x, y, Some(Block { kind: TetrominoType::Z }));
}

fn count_blocks(gs: &GameState) -> usize {
    gs.placed_blocks.cells.iter().filter(|c| c.is_some()).count()
}

#[test]
fn new_game_starts_empty() {
    let gs = game_with(TetrominoType::T, &[TetrominoType::I]);
    assert_eq!(count_blocks(&gs), 0);
    assert_eq!(gs.score.val, 0);
    assert_eq!(gs.gravity.max, 48);
    assert!(gs.hold.is_none());
    assert_eq!(gs.next.len(), NEXT_COUNT);
    assert_eq!(gs.statistics, vec![0; 7]);
}

#[test]
fn random_draws_come_from_the_catalog() {
    let set = tetromino_set();
    let drawn = random_tetrominos(&set, 50);
    assert_eq!(drawn.len(), 50);
    for t in drawn.iter() {
        assert!(set.iter().any(|c| c.kind == t.kind && c.pos == t.pos && c.mat.cells == t.mat.cells));
    }
    let one = spawn_tetromino(&set);
    assert_eq!(one.pos, one.spawn_pos);
    let gs = get_game_state();
    assert_eq!(gs.next.len(), NEXT_COUNT);
    assert_eq!(count_blocks(&gs), 0);
    assert_eq!(gs.gravity.max, 48);
    assert_eq!(gs.gravity.meter, 0);
}

#[test]
fn piece_ignores_moves_until_it_has_entered() {
    let mut gs = game_with(TetrominoType::T, &[]);
    let start = gs.current.pos;
    let mut input = no_input();
    input.move_left = true;
    input.rotate_cw = true;
    input.hard_drop = true;
    play_update(&mut gs);
    play_input(&mut gs, &input);
    assert_eq!(gs.current.pos, start);
    assert_eq!(gs.current.rot_index, 0);
    assert!(!gs.current.sonic_lock);
    gs.current.entry_timer = ENTRY_DELAY;
    input.hard_drop = false;
    play_input(&mut gs, &input);
    assert_eq!(gs.current.pos.x, start.x - 1);
    assert_eq!(gs.current.rot_index, 1);
}

#[test]
fn restart_returns_to_level_zero_gravity() {
    let mut gs = game_with(TetrominoType::O, &[]);
    gs.gravity.max = SOFT_DROP_GRAVITY;
    gs.score.lines = 95;
    gs.score.level = 9;
    let mut input = no_input();
    input.restart = true;
    play_input(&mut gs, &input);
    assert_eq!(gs.gravity.max, 48);
    assert_eq!(gs.score.lines, 0);
    assert_eq!(gs.score.level, 0);
}

#[test]
fn score_lines_and_level_only_grow() {
    let mut gs = game_with(TetrominoType::I, &[TetrominoType::O]);
    gs.score.lines = 9;
    gs.score.level = 0;
    for x in 0..10 {
        if !(3..7).contains(&x) {
            fill(&mut gs, x, 0);
        }
    }
    gs.current.pos = Point { x: 3, y: -2 };
    gs.current.sonic_lock = true;
    update_ghost(&mut gs);
    play_update(&mut gs);
    assert_eq!(gs.score.lines, 10);
    assert_eq!(gs.score.level, 1);
    assert_eq!(gs.score.val, 80);
    assert_eq!(gs.gravity.max, 43);
}

#[test]
fn ghost_lands_on_the_floor_or_the_stack() {
    let mut gs = game_with(TetrominoType::I, &[]);
    update_ghost(&mut gs);
    assert!(!gs.ghost_piece.dirty);
    // The flat bar lies in row c = 2 of its box.
    assert_eq!(gs.ghost_piece.pos, Point { x: 3, y: -2 });
    fill(&mut gs, 5, 6);
    update_ghost(&mut gs);
    assert_eq!(gs.ghost_piece.pos, Point { x: 3, y: 5 });
}

#[test]
fn hard_drop_commits_on_the_same_frame() {
    let mut gs = game_with(TetrominoType::I, &[TetrominoType::T]);
    play_update(&mut gs);
    assert!(!gs.ghost_piece.dirty);
    gs.current.entry_timer = ENTRY_DELAY;
    let mut input = no_input();
    input.hard_drop = true;
    play_input(&mut gs, &input);
    assert!(gs.current.sonic_lock);
    assert_eq!(gs.current.lock_counter, 0);
    play_update(&mut gs);
    assert_eq!(gs.current.kind, TetrominoType::T);
    for x in 3..7 {
        assert!(gs.placed_blocks.is_occupied(x, 0));
    }
    assert_eq!(count_blocks(&gs), 4);
    assert_eq!(gs.statistics[kind_index(TetrominoType::I)], 1);
    assert!(!gs.score.topout);
}

#[test]
fn resting_piece_waits_for_the_lock_delay() {
    let mut gs = game_with(TetrominoType::O, &[TetrominoType::T]);
    gs.current.pos = Point { x: 3, y: -2 };
    update_ghost(&mut gs);
    settle_piece(&mut gs);
    assert!(gs.current.locking);
    assert_eq!(gs.current.kind, TetrominoType::O);
    let mut frames = 0;
    while gs.current.kind == TetrominoType::O {
        play_update(&mut gs);
        frames += 1;
        assert!(frames <= LOCK_DELAY + 1);
    }
    assert_eq!(frames, LOCK_DELAY);
    assert_eq!(count_blocks(&gs), 4);
}

#[test]
fn commit_at_spawn_tops_out() {
    let mut gs = game_with(TetrominoType::T, &[TetrominoType::I]);
    fill(&mut gs, 4, 20);
    play_update(&mut gs);
    assert!(gs.current.locking);
    gs.current.sonic_lock = true;
    play_update(&mut gs);
    assert!(gs.score.topout);
    assert_eq!(count_blocks(&gs), 1);
    assert_eq!(gs.current.kind, TetrominoType::T);
}

#[test]
fn commit_after_a_fall_does_not_top_out() {
    let mut gs = game_with(TetrominoType::T, &[TetrominoType::I]);
    fill(&mut gs, 4, 19);
    gs.current.entry_timer = ENTRY_DELAY;
    gs.gravity.meter = gs.gravity.max;
    play_update(&mut gs);
    assert_eq!(gs.current.pos, Point { x: 3, y: 19 });
    gs.current.sonic_lock = true;
    play_update(&mut gs);
    assert!(!gs.score.topout);
    assert_eq!(gs.current.kind, TetrominoType::I);
    assert_eq!(count_blocks(&gs), 5);
}

#[test]
fn gravity_waits_for_entry_delay_and_meter() {
    let mut gs = game_with(TetrominoType::L, &[]);
    gs.gravity.max = 2;
    for _ in 0..ENTRY_DELAY {
        play_update(&mut gs);
    }
    let y = gs.current.pos.y;
    assert!(y < 20);
    let mut input = no_input();
    input.soft_drop_on = true;
    play_input(&mut gs, &input);
    assert_eq!(gs.gravity.max, SOFT_DROP_GRAVITY);
    input.soft_drop_on = false;
    input.soft_drop_off = true;
    play_input(&mut gs, &input);
    assert_eq!(gs.gravity.max, 48);
}

#[test]
fn t_spin_into_a_notch_scores_the_bonus() {
    let mut gs = game_with(TetrominoType::T, &[TetrominoType::J]);
    // Row 1 is full but for column 4; column 4 of row 0 holds the floor of
    // the notch; columns 2 and 6 of row 2 frame its top.
    for x in 0..10 {
        if x != 4 {
            fill(&mut gs, x, 1);
        }
    }
    fill(&mut gs, 4, 0);
    fill(&mut gs, 2, 2);
    fill(&mut gs, 6, 2);
    let mut t = Tetromino::new(TetrominoType::T);
    let mut g = GhostPiece { pos: t.pos, dirty: false };
    rotate(true, &mut t, &tetris::board::Board::new(10, 22), &mut g);
    t.pos = Point { x: 3, y: 1 };
    gs.current = t;
    gs.last_input = FrameInput::Move;
    rotate_piece(&mut gs, true);
    assert_eq!(gs.current.rot_index, 2);
    assert_eq!(gs.current.pos, Point { x: 3, y: 1 });
    assert_eq!(gs.last_input, FrameInput::Rotate);
    commit_tetromino(&mut gs);
    assert_eq!(gs.score.val, 880);
    assert_eq!(gs.last_score.val, 880);
    assert_eq!(gs.score.lines, 1);
    let lc = gs.line_clear.as_ref().unwrap();
    assert_eq!(lc.lines, vec![1]);
    assert_eq!(lc.y_pos, 1);
}

#[test]
fn same_notch_without_rotation_scores_plain() {
    let mut gs = game_with(TetrominoType::T, &[TetrominoType::J]);
    for x in 0..10 {
        if x != 4 {
            fill(&mut gs, x, 1);
        }
    }
    fill(&mut gs, 4, 0);
    fill(&mut gs, 2, 2);
    fill(&mut gs, 6, 2);
    let mut t = Tetromino::new(TetrominoType::T);
    let mut g = GhostPiece { pos: t.pos, dirty: false };
    rotate(true, &mut t, &tetris::board::Board::new(10, 22), &mut g);
    rotate(true, &mut t, &tetris::board::Board::new(10, 22), &mut g);
    t.pos = Point { x: 3, y: 1 };
    gs.current = t;
    gs.last_input = FrameInput::Move;
    commit_tetromino(&mut gs);
    assert_eq!(gs.score.val, 80);
}

#[test]
fn cleared_rows_vanish_after_the_delay() {
    let mut gs = game_with(TetrominoType::I, &[TetrominoType::O]);
    for x in 0..10 {
        if !(3..7).contains(&x) {
            fill(&mut gs, x, 0);
        }
    }
    fill(&mut gs, 0, 1);
    gs.current.pos = Point { x: 3, y: -2 };
    commit_tetromino(&mut gs);
    assert_eq!(gs.score.lines, 1);
    assert_eq!(gs.score.val, 80);
    assert!(gs.line_clear.is_some());
    for _ in 0..LINE_CLEAR_DELAY - 1 {
        play_update(&mut gs);
        assert!(gs.line_clear.is_some());
    }
    play_update(&mut gs);
    assert!(gs.line_clear.is_none());
    assert!(gs.placed_blocks.is_occupied(0, 0));
    assert!(!gs.placed_blocks.is_occupied(1, 0));
    assert!(!gs.placed_blocks.is_occupied(0, 1));
}

#[test]
fn hold_swaps_once_per_cycle() {
    let mut gs = game_with(TetrominoType::J, &[TetrominoType::T, TetrominoType::S]);
    gs.current.pos = Point { x: 1, y: 9 };
    hold_piece(&mut gs);
    let h = gs.hold.unwrap();
    assert_eq!(h.kind, TetrominoType::J);
    assert_eq!(h.pos, h.spawn_pos);
    assert_eq!(h.rot_index, 0);
    assert_eq!(gs.current.kind, TetrominoType::T);
    assert!(gs.current.held);
    assert_eq!(gs.next[0].kind, TetrominoType::S);
    assert_eq!(gs.next.len(), NEXT_COUNT);
    assert!(gs.ghost_piece.dirty);
    hold_piece(&mut gs);
    assert_eq!(gs.current.kind, TetrominoType::T);
    assert_eq!(gs.hold.unwrap().kind, TetrominoType::J);
    assert_eq!(gs.next[0].kind, TetrominoType::S);
}

#[test]
fn hold_with_a_full_slot_swaps() {
    let mut gs = game_with(TetrominoType::J, &[TetrominoType::T]);
    hold_piece(&mut gs);
    gs.current.held = false;
    hold_piece(&mut gs);
    assert_eq!(gs.current.kind, TetrominoType::J);
    assert!(gs.current.held);
    assert_eq!(gs.hold.unwrap().kind, TetrominoType::T);
}

#[test]
fn queue_advances_with_the_given_refill() {
    let mut gs = game_with(TetrominoType::J, &[TetrominoType::T, TetrominoType::S]);
    let t = drain_next_refill(&mut gs, Tetromino::new(TetrominoType::Z));
    assert_eq!(t.kind, TetrominoType::T);
    assert_eq!(gs.next[0].kind, TetrominoType::S);
    assert_eq!(gs.next[NEXT_COUNT - 1].kind, TetrominoType::Z);
    assert_eq!(gs.gravity.meter, 0);
}

#[test]
fn moves_stop_at_walls_and_record_the_input() {
    let mut gs = game_with(TetrominoType::O, &[]);
    for _ in 0..10 {
        shift_piece(&mut gs, -1);
    }
    assert_eq!(gs.current.pos.x, -1);
    assert_eq!(gs.last_input, FrameInput::Move);
    for _ in 0..20 {
        shift_piece(&mut gs, 1);
    }
    assert_eq!(gs.current.pos.x, 7);
}

#[test]
fn restart_and_debug_intents() {
    let mut gs = game_with(TetrominoType::O, &[]);
    fill(&mut gs, 0, 0);
    gs.score.val = 500;
    let mut input = no_input();
    input.restart = true;
    input.toggle_debug = true;
    play_input(&mut gs, &input);
    assert_eq!(count_blocks(&gs), 0);
    assert_eq!(gs.score.val, 0);
    assert!(gs.debug);
}
