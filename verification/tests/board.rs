use tetris::engine::piece::{Kind, Offset, Piece, Rotation};
use tetris::engine::{Board, Cell, Coordinate};

fn piece(kind: Kind, x: isize, y: isize, rotation: Rotation) -> Piece {
    Piece {
        kind,
        position: Coordinate::new(x, y),
        rotation,
        offset: Offset::zero(),
    }
}

fn fill_row(board: &mut Board, row: usize) {
    for col in 0..10 {
        board.cells[row * 10 + col].filled = true;
    }
}

fn filled_offsets(board: &Board) -> Vec<usize> {
    (0..200).filter(|o| board.cells[*o].filled).collect()
}

fn marked_offsets(board: &Board) -> Vec<usize> {
    (0..200).filter(|o| board.cells[*o].marked).collect()
}

#[test]
fn board_dimensions() {
    assert_eq!(Board::WIDTH, 10);
    assert_eq!(Board::HEIGHT, 20);
    assert_eq!(Board::SIZE, 200);
}

#[test]
fn new_cell_is_blank() {
    assert_eq!(
        Cell::new(),
        Cell {
            filled: false,
            marked: false
        }
    );
}

#[test]
fn blank_board_is_empty() {
    let board = Board::blank();
    assert_eq!(board.cells.len(), 200);
    assert!(board.cells.iter().all(|c| *c == Cell::new()));
    assert!(board.pending.is_empty());
}

#[test]
fn nothing_is_filled_above_the_field() {
    let mut board = Board::blank();
    fill_row(&mut board, 0);
    assert!(!board.filled(Coordinate::new(0, -1)));
    assert!(!board.filled(Coordinate::new(5, -3)));
    assert!(!board.filled(Coordinate::new(-7, -1)));
    assert!(!board.filled(Coordinate::new(500, -1)));
}

#[test]
fn everything_is_filled_from_the_end_of_the_grid() {
    let board = Board::blank();
    assert!(board.filled(Coordinate::new(0, 20)));
    assert!(board.filled(Coordinate::new(9, 20)));
    assert!(board.filled(Coordinate::new(3, 25)));
    assert!(board.filled(Coordinate::new(10, 19)));
    assert!(!board.filled(Coordinate::new(9, 19)));
}

#[test]
fn filled_reads_the_stored_flag() {
    let mut board = Board::blank();
    board.cells[3 * 10 + 4].filled = true;
    assert!(board.filled(Coordinate::new(4, 3)));
    assert!(!board.filled(Coordinate::new(5, 3)));
    assert!(!board.filled(Coordinate::new(4, 2)));
    // beside the field the offset decides: (14, 2) falls on (4, 3)
    assert!(board.filled(Coordinate::new(14, 2)));
}

#[test]
fn filled_copes_with_huge_coordinates() {
    let board = Board::blank();
    assert!(board.filled(Coordinate::new(isize::MAX, isize::MAX)));
    assert!(!board.filled(Coordinate::new(isize::MIN, isize::MIN)));
    assert!(!board.filled(Coordinate::new(isize::MAX, -1)));
}

#[test]
fn add_fills_the_cells_of_the_piece() {
    let mut board = Board::blank();
    let r = board.add(&piece(Kind::T, 2, 5, Rotation::N));
    assert_eq!(r, Ok(()));
    assert_eq!(filled_offsets(&board), vec![53, 62, 63, 64]);
    assert!(marked_offsets(&board).is_empty());
    assert!(board.pending.is_empty());
}

#[test]
fn add_keeps_what_is_there() {
    let mut board = Board::blank();
    board.cells[63].filled = true;
    board.cells[63].marked = true;
    board.cells[199].filled = true;
    assert_eq!(board.add(&piece(Kind::T, 2, 5, Rotation::N)), Ok(()));
    assert_eq!(filled_offsets(&board), vec![53, 62, 63, 64, 199]);
    assert_eq!(marked_offsets(&board), vec![63]);
}

#[test]
fn add_refuses_a_piece_above_the_field() {
    let mut board = Board::blank();
    board.cells[7].filled = true;
    let r = board.add(&piece(Kind::O, 3, -2, Rotation::N));
    assert_eq!(r, Err("Integer underflow".to_string()));
    assert_eq!(filled_offsets(&board), vec![7]);
}

#[test]
fn add_refuses_a_piece_partly_above_the_field() {
    let mut board = Board::blank();
    // O at y = -1: one row above the field, one row in it
    let r = board.add(&piece(Kind::O, 3, -1, Rotation::N));
    assert_eq!(r, Err("Integer underflow".to_string()));
    assert!(filled_offsets(&board).is_empty());
}

#[test]
fn add_accepts_a_piece_in_the_top_rows() {
    let mut board = Board::blank();
    assert_eq!(board.add(&piece(Kind::O, 3, 0, Rotation::N)), Ok(()));
    assert_eq!(filled_offsets(&board), vec![4, 5, 14, 15]);
}

#[test]
fn scan_of_a_board_without_complete_rows() {
    let mut board = Board::blank();
    for col in 0..9 {
        board.cells[190 + col].filled = true;
    }
    let mut points = 40;
    let mut level = 3;
    assert!(!board.has_patterns(&mut points, &mut level));
    assert_eq!(points, 40);
    assert_eq!(level, 3);
    assert!(board.pending.is_empty());
    assert!(marked_offsets(&board).is_empty());
}

#[test]
fn single_row_is_marked_and_collapsed() {
    for row in [0usize, 7, 19] {
        let mut board = Board::blank();
        fill_row(&mut board, row);
        let mut points = 0;
        let mut level = 1;
        assert!(board.has_patterns(&mut points, &mut level));
        assert_eq!(
            marked_offsets(&board),
            (row * 10..row * 10 + 10).collect::<Vec<usize>>()
        );
        assert_eq!(
            filled_offsets(&board),
            (row * 10..row * 10 + 10).collect::<Vec<usize>>()
        );
        assert_eq!(board.pending, vec![row as isize]);
        assert_eq!(points, 100);
        // nothing lies above the row, so no cell moves
        assert!(!board.clear_marked());
        assert!(filled_offsets(&board).is_empty());
        assert!(marked_offsets(&board).is_empty());
        assert!(board.pending.is_empty());
    }
}

#[test]
fn collapse_moves_the_rows_above_and_keeps_the_rows_below() {
    let mut board = Board::blank();
    fill_row(&mut board, 10);
    board.cells[0 * 10 + 1].filled = true; // row 0
    board.cells[9 * 10 + 3].filled = true; // row 9
    board.cells[9 * 10 + 4].filled = true;
    board.cells[11 * 10 + 5].filled = true; // row 11
    board.cells[19 * 10 + 9].filled = true; // row 19
    let mut points = 0;
    let mut level = 1;
    assert!(board.has_patterns(&mut points, &mut level));
    assert_eq!(marked_offsets(&board), (100..110).collect::<Vec<usize>>());
    assert!(board.clear_marked());
    assert_eq!(filled_offsets(&board), vec![11, 103, 104, 115, 199]);
    assert!(marked_offsets(&board).is_empty());
    assert!(board.pending.is_empty());
    assert!(!board.clear_marked());
    assert_eq!(filled_offsets(&board), vec![11, 103, 104, 115, 199]);
}

#[test]
fn scoring_table() {
    for level in [1usize, 2, 7, 15] {
        for (rows, factor) in [(1usize, 100usize), (2, 300), (3, 500), (4, 800)] {
            let mut board = Board::blank();
            for row in 0..rows {
                fill_row(&mut board, 19 - row);
            }
            let mut points = 11;
            let mut l = level;
            assert!(board.has_patterns(&mut points, &mut l));
            assert_eq!(points, 11 + factor * level);
            assert_eq!(l, level);
            assert_eq!(board.pending.len(), rows);
        }
    }
}

#[test]
fn more_than_four_rows_pay_nothing() {
    let mut board = Board::blank();
    for row in 10..15 {
        fill_row(&mut board, row);
    }
    let mut points = 5;
    let mut level = 2;
    assert!(board.has_patterns(&mut points, &mut level));
    assert_eq!(points, 5);
    assert_eq!(board.pending, vec![10, 11, 12, 13, 14]);
}

#[test]
fn rows_are_recorded_from_the_top_down() {
    let mut board = Board::blank();
    fill_row(&mut board, 17);
    fill_row(&mut board, 3);
    fill_row(&mut board, 12);
    let mut points = 0;
    let mut level = 1;
    assert!(board.has_patterns(&mut points, &mut level));
    assert_eq!(board.pending, vec![3, 12, 17]);
    assert_eq!(points, 500);
}

#[test]
fn topmost_pending_row_goes_first() {
    let mut board = Board::blank();
    fill_row(&mut board, 18);
    fill_row(&mut board, 19);
    board.cells[17 * 10 + 2].filled = true;
    let mut points = 0;
    let mut level = 1;
    assert!(board.has_patterns(&mut points, &mut level));
    assert_eq!(points, 300);
    // the order in which the rows are held does not matter
    board.pending = vec![19, 18];
    assert!(board.clear_marked());
    assert_eq!(board.pending, vec![19]);
    let mut expected: Vec<usize> = vec![182];
    expected.extend(190..200);
    assert_eq!(filled_offsets(&board), expected);
    assert_eq!(marked_offsets(&board), (190..200).collect::<Vec<usize>>());
    assert!(board.clear_marked());
    assert!(board.pending.is_empty());
    assert_eq!(filled_offsets(&board), vec![192]);
    assert!(marked_offsets(&board).is_empty());
}

#[test]
fn collapse_without_pending_rows_does_nothing() {
    let mut board = Board::blank();
    board.cells[55].filled = true;
    assert!(!board.clear_marked());
    assert_eq!(filled_offsets(&board), vec![55]);
}

#[test]
fn pending_rows_are_kept_from_the_bottom_up() {
    let mut board = Board::blank();
    board.cells[5].filled = true;
    board.pending = vec![12, 3, 17, 12, 8];
    assert!(board.clear_marked());
    assert_eq!(board.pending, vec![17, 12, 12, 8]);
    assert_eq!(filled_offsets(&board), vec![15]);
    assert!(board.clear_marked());
    assert_eq!(board.pending, vec![17, 12, 12]);
    assert!(board.clear_marked());
    assert!(board.clear_marked());
    assert_eq!(board.pending, vec![17]);
    assert_eq!(filled_offsets(&board), vec![45]);
    assert!(board.clear_marked());
    assert!(board.pending.is_empty());
    assert!(!board.clear_marked());
    assert_eq!(filled_offsets(&board), vec![55]);
}
