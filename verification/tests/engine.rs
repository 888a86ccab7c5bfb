use tetris::engine::clock::held_millis;
use tetris::engine::piece::{Direction, Kind, Offset, Piece, Rotation};
use tetris::engine::{Board, Coordinate, Engine, EngineState};

fn piece(kind: Kind, x: isize, y: isize, rotation: Rotation) -> Piece {
    Piece {
        kind,
        position: Coordinate::new(x, y),
        rotation,
        offset: Offset::zero(),
    }
}

fn at(x: isize, y: isize) -> Coordinate {
    Coordinate::new(x, y)
}

fn filled_offsets(board: &Board) -> Vec<usize> {
    (0..200).filter(|o| board.cells[*o].filled).collect()
}

/// An engine whose row 19 is filled in the columns 0 to 8.
fn engine_with_gap_in_last_row() -> Engine {
    let mut engine = Engine::new();
    for col in 0..9 {
        engine.board.cells[190 + col].filled = true;
    }
    engine
}

/// Runs the ticks that follow a commit until the game falls again.
fn settle(engine: &mut Engine, mut now: u64) -> u64 {
    let mut guard = 0;
    while engine.state != EngineState::Falling {
        now += 101;
        assert_eq!(engine.tick_at(false, now), Ok(()));
        guard += 1;
        assert!(guard < 100);
    }
    now
}

#[test]
fn new_engine_is_at_the_start() {
    let engine = Engine::new();
    assert_eq!(engine.level, 1);
    assert_eq!(engine.points, 0);
    assert_eq!(engine.rows_cleared, 0);
    assert_eq!(engine.state, EngineState::Falling);
    assert_eq!(engine.cursor, None);
    assert!(engine.queue.is_empty());
    assert!(engine.bag.is_empty());
    assert_eq!(engine.last_tick, 0);
    assert!(!engine.soft_dropping);
    assert_eq!(engine.soft_drop_count, 0);
    assert!(filled_offsets(&engine.board).is_empty());
    assert!(engine.get_pile().is_empty());
    assert!(engine.get_marked().is_empty());
}

#[test]
fn speed_table() {
    assert_eq!(
        Engine::LEVEL_TPR_IN_MS,
        [1000, 793, 618, 473, 355, 262, 190, 135, 94, 64, 43, 28, 18, 11, 7]
    );
    for pair in Engine::LEVEL_TPR_IN_MS.windows(2) {
        assert!(pair[1] < pair[0]);
    }
}

#[test]
fn place_cursor_spawns_above_the_middle() {
    let mut engine = Engine::new();
    engine.place_cursor();
    let c = engine.cursor.unwrap();
    assert_eq!(c.position, at(3, -2));
    assert_eq!(c.rotation, Rotation::N);
    assert_eq!(c.offset, Offset::zero());
    assert_eq!(engine.queue.len(), 7);
    assert_eq!(engine.state, EngineState::Falling);
    assert_eq!(engine.points, 0);
}

#[test]
fn place_cursor_takes_the_front_of_the_queue() {
    let mut engine = Engine::new();
    engine.place_cursor();
    let next = engine.queue[0];
    let after = engine.queue[1];
    engine.place_cursor();
    assert_eq!(engine.cursor.unwrap().kind, next);
    assert_eq!(engine.queue[0], after);
    assert_eq!(engine.queue.len(), 7);
}

#[test]
fn tick_without_cursor_spawns_a_piece() {
    let mut engine = Engine::new();
    assert_eq!(engine.tick_at(false, 5), Ok(()));
    let c = engine.cursor.unwrap();
    assert_eq!(c.position, at(3, -2));
    assert_eq!(engine.state, EngineState::Falling);
    assert_eq!(engine.queue.len(), 7);
    assert_eq!(engine.last_tick, 0);
}

#[test]
fn tick_reads_the_clock() {
    let mut engine = Engine::new();
    assert_eq!(engine.tick(false), Ok(()));
    assert!(engine.cursor.is_some());
    assert_eq!(engine.cursor.unwrap().position, at(3, -2));
    // the next frame comes before the first second is over, unless the
    // machine stalls: then the piece has fallen by its first row
    assert_eq!(engine.tick(false), Ok(()));
    let c = engine.cursor.unwrap();
    assert!(c.position == at(3, -2) || c.position == at(3, -1));
    assert!(c.offset.elapsed <= c.offset.interval);
    assert_eq!(c.offset.interval, 1000);
    assert_eq!(engine.state, EngineState::Falling);
}

#[test]
fn piece_falls_once_the_interval_has_passed() {
    let mut engine = Engine::new();
    engine.cursor = Some(piece(Kind::O, 3, -2, Rotation::N));
    engine.last_tick = 2000;
    assert_eq!(engine.tick_at(false, 2400), Ok(()));
    let c = engine.cursor.unwrap();
    assert_eq!(c.position, at(3, -2));
    assert_eq!(c.offset, Offset { elapsed: 400, interval: 1000 });
    assert_eq!(engine.last_tick, 2000);
    // exactly the interval is not yet more than the interval
    assert_eq!(engine.tick_at(false, 3000), Ok(()));
    let c = engine.cursor.unwrap();
    assert_eq!(c.position, at(3, -2));
    assert_eq!(c.offset, Offset { elapsed: 1000, interval: 1000 });
    assert_eq!(engine.tick_at(false, 3001), Ok(()));
    let c = engine.cursor.unwrap();
    assert_eq!(c.position, at(3, -1));
    assert_eq!(c.offset, Offset { elapsed: 1000, interval: 1000 });
    assert_eq!(engine.last_tick, 3001);
    assert_eq!(engine.state, EngineState::Falling);
    assert_eq!(engine.soft_drop_count, 0);
}

#[test]
fn clock_that_runs_backwards_counts_as_no_time() {
    let mut engine = Engine::new();
    engine.cursor = Some(piece(Kind::O, 3, 4, Rotation::N));
    engine.last_tick = 2000;
    assert_eq!(engine.tick_at(false, 1500), Ok(()));
    let c = engine.cursor.unwrap();
    assert_eq!(c.position, at(3, 4));
    assert_eq!(c.offset, Offset { elapsed: 0, interval: 1000 });
    assert_eq!(engine.last_tick, 2000);
    engine.state = EngineState::Locking(9000);
    engine.cursor = Some(piece(Kind::O, 3, 18, Rotation::N));
    assert_eq!(engine.tick_at(false, 100), Ok(()));
    assert_eq!(engine.state, EngineState::Locking(9000));
    engine.state = EngineState::Animating(9000);
    engine.cursor = None;
    assert_eq!(engine.tick_at(false, 100), Ok(()));
    assert_eq!(engine.state, EngineState::Animating(9000));
}

#[test]
fn o_piece_falls_locks_and_is_committed() {
    let mut engine = Engine::new();
    engine.cursor = Some(piece(Kind::O, 3, -2, Rotation::N));
    let mut now = 0;
    let mut lowers = 0;
    loop {
        now += 1001;
        assert_eq!(engine.tick_at(false, now), Ok(()));
        if engine.state != EngineState::Falling {
            break;
        }
        lowers += 1;
        assert_eq!(engine.cursor.unwrap().position, at(3, -2 + lowers));
        assert!(lowers <= 20);
    }
    assert_eq!(lowers, 20);
    assert_eq!(engine.state, EngineState::Locking(now));
    assert_eq!(engine.cursor.unwrap().position, at(3, 18));
    // the lock delay has to be over, not just reached
    assert_eq!(engine.tick_at(false, now + 500), Ok(()));
    assert_eq!(engine.state, EngineState::Locking(now));
    assert!(filled_offsets(&engine.board).is_empty());
    assert_eq!(engine.tick_at(false, now + 501), Ok(()));
    assert_eq!(engine.state, EngineState::PatternFinding);
    assert_eq!(engine.cursor, None);
    assert_eq!(filled_offsets(&engine.board), vec![184, 185, 194, 195]);
    assert_eq!(engine.get_pile(), vec![at(4, 18), at(5, 18), at(4, 19), at(5, 19)]);
    assert_eq!(engine.points, 0);
    assert_eq!(engine.tick_at(false, now + 502), Ok(()));
    assert_eq!(engine.state, EngineState::Falling);
    assert_eq!(engine.points, 0);
    assert_eq!(engine.rows_cleared, 0);
}

#[test]
fn resting_piece_falls_again_when_the_way_is_free() {
    let mut engine = Engine::new();
    engine.cursor = Some(piece(Kind::O, 3, 10, Rotation::N));
    engine.state = EngineState::Locking(100);
    assert_eq!(engine.tick_at(false, 5000), Ok(()));
    assert_eq!(engine.state, EngineState::Falling);
    assert_eq!(engine.cursor.unwrap().position, at(3, 11));
    assert!(filled_offsets(&engine.board).is_empty());
}

#[test]
fn lock_without_cursor_goes_on_to_the_scan() {
    let mut engine = Engine::new();
    engine.state = EngineState::Locking(100);
    assert_eq!(engine.tick_at(false, 600), Ok(()));
    assert_eq!(engine.state, EngineState::Locking(100));
    assert_eq!(engine.tick_at(false, 601), Ok(()));
    assert_eq!(engine.state, EngineState::PatternFinding);
}

#[test]
fn lock_above_the_field_is_an_underflow() {
    let mut engine = Engine::new();
    for col in 3..7 {
        engine.board.cells[col].filled = true;
    }
    engine.cursor = Some(piece(Kind::O, 3, -2, Rotation::N));
    engine.state = EngineState::Locking(0);
    let before = filled_offsets(&engine.board);
    assert_eq!(
        engine.tick_at(false, 501),
        Err("Integer underflow".to_string())
    );
    assert_eq!(filled_offsets(&engine.board), before);
    assert_eq!(engine.cursor, Some(piece(Kind::O, 3, -2, Rotation::N)));
    assert_eq!(engine.state, EngineState::Locking(0));
}

#[test]
fn completing_the_last_row_clears_it() {
    for level in [1usize, 4] {
        let mut engine = engine_with_gap_in_last_row();
        engine.level = level;
        engine.rows_cleared = 0;
        // I upright in column 9
        engine.cursor = Some(piece(Kind::I, 7, -2, Rotation::E));
        assert_eq!(engine.drop(), Ok(()));
        assert_eq!(engine.state, EngineState::PatternFinding);
        assert_eq!(engine.cursor, None);
        assert_eq!(engine.points, 2 * 18);
        assert_eq!(engine.tick_at(false, 1000), Ok(()));
        assert_eq!(engine.state, EngineState::Animating(1000));
        assert_eq!(engine.points, 2 * 18 + 100 * level);
        assert_eq!(engine.rows_cleared, 0);
        assert_eq!(
            engine.get_marked(),
            (0..10).map(|x| at(x, 19)).collect::<Vec<Coordinate>>()
        );
        assert_eq!(engine.get_pile(), vec![at(9, 16), at(9, 17), at(9, 18)]);
        // the flash has to be over
        assert_eq!(engine.tick_at(false, 1100), Ok(()));
        assert_eq!(engine.state, EngineState::Animating(1000));
        assert_eq!(engine.tick_at(false, 1101), Ok(()));
        assert_eq!(engine.state, EngineState::EliminatingSpace);
        assert_eq!(engine.rows_cleared, 1);
        assert_eq!(engine.points, 2 * 18 + 100 * level);
        assert_eq!(engine.level, level);
        assert_eq!(engine.get_pile(), vec![at(9, 17), at(9, 18), at(9, 19)]);
        assert!(engine.get_marked().is_empty());
        assert_eq!(engine.tick_at(false, 1102), Ok(()));
        assert_eq!(engine.state, EngineState::Animating(1102));
        assert_eq!(engine.tick_at(false, 1203), Ok(()));
        assert_eq!(engine.state, EngineState::Falling);
        assert_eq!(engine.rows_cleared, 1);
        assert_eq!(engine.points, 2 * 18 + 100 * level);
    }
}

#[test]
fn two_rows_are_collapsed_one_after_the_other() {
    let mut engine = Engine::new();
    for col in 0..8 {
        engine.board.cells[180 + col].filled = true;
        engine.board.cells[190 + col].filled = true;
    }
    engine.board.cells[170].filled = true;
    engine.level = 2;
    // O into the columns 8 and 9
    engine.cursor = Some(piece(Kind::O, 7, 0, Rotation::N));
    assert_eq!(engine.drop(), Ok(()));
    assert_eq!(engine.points, 2 * 18);
    assert_eq!(engine.tick_at(false, 10), Ok(()));
    assert_eq!(engine.points, 36 + 300 * 2);
    assert_eq!(engine.state, EngineState::Animating(10));
    assert_eq!(engine.tick_at(false, 111), Ok(()));
    assert_eq!(engine.state, EngineState::EliminatingSpace);
    assert_eq!(engine.rows_cleared, 1);
    assert_eq!(engine.tick_at(false, 112), Ok(()));
    assert_eq!(engine.state, EngineState::Animating(112));
    assert_eq!(engine.tick_at(false, 213), Ok(()));
    assert_eq!(engine.state, EngineState::EliminatingSpace);
    assert_eq!(engine.rows_cleared, 2);
    assert_eq!(engine.get_pile(), vec![at(0, 19)]);
    assert!(engine.get_marked().is_empty());
    settle(&mut engine, 213);
    assert_eq!(engine.rows_cleared, 2);
    assert_eq!(engine.points, 36 + 600);
}

#[test]
fn level_rises_when_the_rows_reach_ten_times_the_level() {
    let mut engine = engine_with_gap_in_last_row();
    engine.rows_cleared = 9;
    engine.level = 1;
    engine.cursor = Some(piece(Kind::I, 7, 10, Rotation::E));
    assert_eq!(engine.drop(), Ok(()));
    let now = settle(&mut engine, 0);
    assert_eq!(engine.rows_cleared, 10);
    assert_eq!(engine.level, 2);
    // the piece now falls after 793 ms, no longer after 1000 ms
    engine.cursor = Some(piece(Kind::O, 3, 0, Rotation::N));
    engine.last_tick = now;
    assert_eq!(engine.tick_at(false, now + 793), Ok(()));
    assert_eq!(engine.cursor.unwrap().position, at(3, 0));
    assert_eq!(
        engine.cursor.unwrap().offset,
        Offset { elapsed: 793, interval: 793 }
    );
    assert_eq!(engine.tick_at(false, now + 794), Ok(()));
    assert_eq!(engine.cursor.unwrap().position, at(3, 1));
}

#[test]
fn level_stays_while_the_rows_are_too_few() {
    let mut engine = engine_with_gap_in_last_row();
    engine.rows_cleared = 18;
    engine.level = 2;
    engine.cursor = Some(piece(Kind::I, 7, 10, Rotation::E));
    assert_eq!(engine.drop(), Ok(()));
    settle(&mut engine, 0);
    assert_eq!(engine.rows_cleared, 19);
    assert_eq!(engine.level, 2);
}

#[test]
fn level_does_not_rise_above_fifteen() {
    let mut engine = engine_with_gap_in_last_row();
    engine.rows_cleared = 400;
    engine.level = 15;
    engine.cursor = Some(piece(Kind::I, 7, 10, Rotation::E));
    assert_eq!(engine.drop(), Ok(()));
    settle(&mut engine, 0);
    assert_eq!(engine.rows_cleared, 401);
    assert_eq!(engine.level, 15);
}

#[test]
fn tick_is_game_over_when_the_new_piece_cannot_fall() {
    let mut engine = Engine::new();
    for col in 3..7 {
        engine.board.cells[col].filled = true;
    }
    let before = filled_offsets(&engine.board);
    assert_eq!(
        engine.tick_at(false, 0),
        Err("Cannot lower new cursor".to_string())
    );
    assert_eq!(filled_offsets(&engine.board), before);
    assert_eq!(engine.cursor.unwrap().position, at(3, -2));
    assert_eq!(engine.state, EngineState::Falling);
    assert_eq!(engine.points, 0);
}

#[test]
fn drop_is_game_over_when_the_piece_rests_above_the_field() {
    let mut engine = Engine::new();
    for col in 3..7 {
        engine.board.cells[col].filled = true;
    }
    engine.place_cursor();
    let cursor = engine.cursor;
    let before = filled_offsets(&engine.board);
    assert_eq!(engine.drop(), Err("Game Over".to_string()));
    assert_eq!(filled_offsets(&engine.board), before);
    assert_eq!(engine.cursor, cursor);
    assert_eq!(engine.state, EngineState::Falling);
    assert_eq!(engine.points, 0);
}

#[test]
fn game_starts_over_after_game_over() {
    let mut engine = Engine::new();
    for col in 3..7 {
        engine.board.cells[col].filled = true;
    }
    engine.points = 1234;
    engine.rows_cleared = 31;
    engine.level = 4;
    assert!(engine.tick_at(true, 0).is_err());
    engine.clear_board();
    engine.place_cursor();
    assert!(filled_offsets(&engine.board).is_empty());
    assert_eq!(engine.points, 0);
    assert_eq!(engine.rows_cleared, 0);
    assert_eq!(engine.level, 1);
    assert!(!engine.soft_dropping);
    assert_eq!(engine.soft_drop_count, 0);
    assert_eq!(engine.cursor.unwrap().position, at(3, -2));
    assert_eq!(engine.tick_at(false, 5000), Ok(()));
}

#[test]
fn clear_board_keeps_piece_phase_and_supply() {
    let mut engine = Engine::new();
    engine.place_cursor();
    let cursor = engine.cursor;
    let queue = engine.queue.clone();
    let bag = engine.bag.clone();
    engine.state = EngineState::Animating(7);
    engine.last_tick = 99;
    engine.board.cells[5].filled = true;
    engine.board.pending.push(3);
    engine.clear_board();
    assert_eq!(engine.cursor, cursor);
    assert_eq!(engine.queue, queue);
    assert_eq!(engine.bag, bag);
    assert_eq!(engine.state, EngineState::Animating(7));
    assert_eq!(engine.last_tick, 99);
    assert!(filled_offsets(&engine.board).is_empty());
    assert!(engine.board.pending.is_empty());
}

#[test]
fn hard_drop_pays_two_points_a_row() {
    let mut engine = Engine::new();
    engine.points = 7;
    engine.cursor = Some(piece(Kind::T, 3, 5, Rotation::N));
    assert_eq!(engine.drop(), Ok(()));
    // T pointing north rests with its box at row 18
    assert_eq!(engine.points, 7 + 2 * 13);
    assert_eq!(filled_offsets(&engine.board), vec![184, 193, 194, 195]);
    assert_eq!(engine.cursor, None);
    assert_eq!(engine.state, EngineState::PatternFinding);
}

#[test]
fn hard_drop_lands_on_the_pile() {
    let mut engine = Engine::new();
    engine.board.cells[15 * 10 + 5].filled = true;
    engine.cursor = Some(piece(Kind::O, 3, -2, Rotation::N));
    engine.state = EngineState::Locking(3);
    assert_eq!(engine.drop(), Ok(()));
    assert_eq!(engine.points, 2 * 15);
    assert_eq!(filled_offsets(&engine.board), vec![134, 135, 144, 145, 155]);
    assert_eq!(engine.state, EngineState::PatternFinding);
}

#[test]
fn hard_drop_without_cursor_does_nothing() {
    let mut engine = Engine::new();
    engine.state = EngineState::Animating(4);
    assert_eq!(engine.drop(), Ok(()));
    assert_eq!(engine.state, EngineState::Animating(4));
    assert_eq!(engine.points, 0);
    assert_eq!(engine.cursor, None);
}

#[test]
fn soft_drop_falls_twenty_times_as_fast() {
    let mut engine = Engine::new();
    engine.cursor = Some(piece(Kind::O, 3, 0, Rotation::N));
    engine.last_tick = 10_000;
    assert_eq!(engine.tick_at(true, 10_050), Ok(()));
    assert_eq!(engine.cursor.unwrap().position, at(3, 0));
    assert_eq!(
        engine.cursor.unwrap().offset,
        Offset { elapsed: 50, interval: 50 }
    );
    assert!(engine.soft_dropping);
    assert_eq!(engine.tick_at(true, 10_051), Ok(()));
    assert_eq!(engine.cursor.unwrap().position, at(3, 1));
    assert_eq!(engine.soft_drop_count, 1);
    assert_eq!(engine.points, 0);
    // at level 2 the interval is 793 / 20, rounded down
    engine.level = 2;
    engine.last_tick = 20_000;
    assert_eq!(engine.tick_at(true, 20_039), Ok(()));
    assert_eq!(engine.cursor.unwrap().position, at(3, 1));
    assert_eq!(
        engine.cursor.unwrap().offset,
        Offset { elapsed: 39, interval: 39 }
    );
    assert_eq!(engine.tick_at(true, 20_040), Ok(()));
    assert_eq!(engine.cursor.unwrap().position, at(3, 2));
    assert_eq!(engine.soft_drop_count, 2);
}

#[test]
fn soft_drop_is_paid_once_when_it_is_let_go() {
    for level in [1usize, 3] {
        let mut engine = Engine::new();
        engine.level = level;
        engine.cursor = Some(piece(Kind::O, 3, 12, Rotation::N));
        engine.last_tick = 10_000;
        let mut now = 10_000;
        for n in 1..=4 {
            now += 51;
            assert_eq!(engine.tick_at(true, now), Ok(()));
            assert_eq!(engine.soft_drop_count, n);
            assert_eq!(engine.points, 0);
        }
        assert_eq!(engine.cursor.unwrap().position, at(3, 16));
        // let go: four rows are paid, and the piece keeps its place
        now += 10;
        assert_eq!(engine.tick_at(false, now), Ok(()));
        assert_eq!(engine.points, level * 4);
        assert_eq!(engine.soft_drop_count, 0);
        assert!(!engine.soft_dropping);
        assert_eq!(engine.cursor.unwrap().position, at(3, 16));
        // the piece falls on, locks and is committed: nothing more is paid
        let mut guard = 0;
        while engine.state != EngineState::PatternFinding {
            now += 1001;
            assert_eq!(engine.tick_at(false, now), Ok(()));
            assert_eq!(engine.points, level * 4);
            guard += 1;
            assert!(guard < 10);
        }
        assert_eq!(filled_offsets(&engine.board), vec![184, 185, 194, 195]);
        assert_eq!(engine.tick_at(false, now + 1), Ok(()));
        assert_eq!(engine.points, level * 4);
        assert_eq!(engine.state, EngineState::Falling);
    }
}

#[test]
fn letting_go_keeps_the_part_of_the_row_that_has_been_fallen() {
    let mut engine = Engine::new();
    engine.cursor = Some(piece(Kind::O, 3, 2, Rotation::N));
    engine.soft_dropping = true;
    engine.soft_drop_count = 2;
    engine.last_tick = 10_000;
    assert_eq!(engine.tick_at(false, 10_017), Ok(()));
    let c = engine.cursor.unwrap();
    assert_eq!(c.position, at(3, 2));
    assert_eq!(c.offset, Offset { elapsed: 17, interval: 50 });
    // 17 of 50 ms are 340 of 1000 ms
    assert_eq!(engine.last_tick, 10_017 - 340);
    assert_eq!(engine.points, 2);
    assert_eq!(engine.tick_at(false, 10_018), Ok(()));
    assert_eq!(
        engine.cursor.unwrap().offset,
        Offset { elapsed: 341, interval: 1000 }
    );
}

#[test]
fn letting_go_after_the_interval_rewinds_a_whole_row() {
    let mut engine = Engine::new();
    engine.cursor = Some(piece(Kind::O, 3, 2, Rotation::N));
    engine.soft_dropping = true;
    engine.last_tick = 10_000;
    engine.level = 2;
    assert_eq!(engine.tick_at(false, 10_500), Ok(()));
    let c = engine.cursor.unwrap();
    // no row is fallen on the frame on which soft drop ends
    assert_eq!(c.position, at(3, 2));
    assert_eq!(c.offset, Offset { elapsed: 39, interval: 39 });
    assert_eq!(engine.last_tick, 10_500 - 780);
}

#[test]
fn rewinding_stops_at_the_start_of_the_clock() {
    let mut engine = Engine::new();
    engine.cursor = Some(piece(Kind::O, 3, 2, Rotation::N));
    engine.soft_dropping = true;
    engine.last_tick = 0;
    assert_eq!(engine.tick_at(false, 30), Ok(()));
    assert_eq!(
        engine.cursor.unwrap().offset,
        Offset { elapsed: 30, interval: 50 }
    );
    assert_eq!(engine.last_tick, 0);
}

#[test]
fn soft_drop_at_the_top_levels_has_no_interval() {
    let mut engine = Engine::new();
    engine.level = 15;
    engine.cursor = Some(piece(Kind::O, 3, 2, Rotation::N));
    engine.last_tick = 500;
    // 7 / 20 is zero: no time at all is not more than the interval
    assert_eq!(engine.tick_at(true, 500), Ok(()));
    assert_eq!(engine.cursor.unwrap().position, at(3, 2));
    assert_eq!(
        engine.cursor.unwrap().offset,
        Offset { elapsed: 0, interval: 0 }
    );
    assert_eq!(engine.tick_at(true, 501), Ok(()));
    assert_eq!(engine.cursor.unwrap().position, at(3, 3));
}

#[test]
fn soft_drop_held_until_the_lock_is_paid_at_the_lock() {
    let mut engine = Engine::new();
    engine.level = 2;
    engine.cursor = Some(piece(Kind::O, 3, 18, Rotation::N));
    engine.state = EngineState::Locking(1000);
    engine.soft_dropping = true;
    engine.soft_drop_count = 5;
    assert_eq!(engine.tick_at(true, 1501), Ok(()));
    assert_eq!(engine.state, EngineState::PatternFinding);
    assert_eq!(engine.points, 10);
    assert_eq!(engine.soft_drop_count, 0);
    assert!(engine.soft_dropping);
}

#[test]
fn try_move_without_cursor_does_nothing() {
    let mut engine = Engine::new();
    for direction in [Direction::LEFT, Direction::RIGHT, Direction::CW, Direction::CCW] {
        engine.try_move(direction);
        assert_eq!(engine.cursor, None);
    }
    assert_eq!(engine.state, EngineState::Falling);
}

#[test]
fn try_move_moves_and_turns() {
    let mut engine = Engine::new();
    engine.cursor = Some(piece(Kind::L, 3, 5, Rotation::N));
    engine.try_move(Direction::LEFT);
    assert_eq!(engine.cursor, Some(piece(Kind::L, 2, 5, Rotation::N)));
    engine.try_move(Direction::RIGHT);
    engine.try_move(Direction::RIGHT);
    assert_eq!(engine.cursor, Some(piece(Kind::L, 4, 5, Rotation::N)));
    engine.try_move(Direction::CW);
    assert_eq!(engine.cursor, Some(piece(Kind::L, 4, 5, Rotation::E)));
    engine.try_move(Direction::CCW);
    engine.try_move(Direction::CCW);
    assert_eq!(engine.cursor, Some(piece(Kind::L, 4, 5, Rotation::W)));
}

#[test]
fn illegal_moves_are_ignored() {
    let mut engine = Engine::new();
    engine.board.cells[6 * 10 + 4].filled = true;
    // I flat in the columns 0 to 3 of row 6, beside the filled cell
    let cursor = piece(Kind::I, 0, 5, Rotation::N);
    engine.cursor = Some(cursor);
    engine.try_move(Direction::LEFT);
    assert_eq!(engine.cursor, Some(cursor));
    engine.try_move(Direction::RIGHT);
    assert_eq!(engine.cursor, Some(cursor));
    // upright in column 2 the piece is free, but in row 6 of column 1 or 2 only
    engine.board.cells[7 * 10 + 2].filled = true;
    engine.board.cells[7 * 10 + 1].filled = true;
    engine.try_move(Direction::CW);
    assert_eq!(engine.cursor, Some(cursor));
    engine.try_move(Direction::CCW);
    assert_eq!(engine.cursor, Some(cursor));
    assert_eq!(engine.points, 0);
    assert_eq!(engine.state, EngineState::Falling);
}

#[test]
fn left_or_right_and_turns_can_be_called_alone() {
    let mut engine = Engine::new();
    engine.cursor = Some(piece(Kind::T, 3, 5, Rotation::N));
    engine.left_or_right(Direction::LEFT);
    assert_eq!(engine.cursor.unwrap().position, at(2, 5));
    engine.cw();
    assert_eq!(engine.cursor.unwrap().rotation, Rotation::E);
    engine.ccw();
    assert_eq!(engine.cursor.unwrap().rotation, Rotation::N);
}

#[test]
fn pile_and_marked_cells_are_told_apart() {
    let mut engine = Engine::new();
    engine.board.cells[19 * 10 + 9].filled = true;
    engine.board.cells[3 * 10 + 2].filled = true;
    engine.board.cells[3 * 10 + 1].filled = true;
    engine.board.cells[3 * 10 + 1].marked = true;
    engine.board.cells[0].filled = true;
    engine.board.cells[0].marked = true;
    assert_eq!(engine.get_pile(), vec![at(2, 3), at(9, 19)]);
    assert_eq!(engine.get_marked(), vec![at(0, 0), at(1, 3)]);
}

#[test]
fn scan_without_rows_returns_to_falling() {
    let mut engine = Engine::new();
    engine.state = EngineState::PatternFinding;
    engine.board.cells[5].filled = true;
    assert_eq!(engine.tick_at(false, 77), Ok(()));
    assert_eq!(engine.state, EngineState::Falling);
    assert_eq!(engine.points, 0);
    assert!(engine.get_marked().is_empty());
}

#[test]
fn row_with_nothing_above_is_collapsed_but_not_counted() {
    let mut engine = Engine::new();
    for col in 0..10 {
        engine.board.cells[190 + col].filled = true;
    }
    engine.state = EngineState::PatternFinding;
    assert_eq!(engine.tick_at(false, 0), Ok(()));
    assert_eq!(engine.points, 100);
    assert_eq!(engine.state, EngineState::Animating(0));
    assert_eq!(engine.tick_at(false, 101), Ok(()));
    assert_eq!(engine.state, EngineState::Falling);
    assert_eq!(engine.rows_cleared, 0);
    assert!(engine.get_pile().is_empty());
    assert!(engine.board.pending.is_empty());
}

#[test]
fn times_are_held_at_the_largest_that_fits() {
    assert_eq!(held_millis(0), 0);
    assert_eq!(held_millis(1501), 1501);
    assert_eq!(held_millis(u64::MAX as u128), u64::MAX);
    assert_eq!(held_millis(u64::MAX as u128 + 1), u64::MAX);
    assert_eq!(held_millis(u128::MAX), u64::MAX);
}
