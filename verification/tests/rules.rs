//! Which moves are accepted, and what ends a game.

use connect4::{Board, Cell, Result, HEIGHT, WIDTH};

/// Plays the moves in order and returns the answers.
fn play_all(board: &mut Board, moves: &[(Cell, i8, i8)]) -> Vec<Result> {
    moves.iter().map(|(cell, row, col)| board.play(*cell, *row, *col)).collect()
}

#[test]
fn a_new_board_has_the_classic_size() {
    assert_eq!(WIDTH, 7);
    assert_eq!(HEIGHT, 6);
    let board = Board::new();
    assert_eq!(board.width(), WIDTH);
    assert_eq!(board.height(), HEIGHT);
    assert_eq!(board.cells().len(), 42);
}

#[test]
fn size_does_not_change_with_moves() {
    let mut board = Board::new();
    play_all(&mut board, &[(Cell::Yellow, 5, 3), (Cell::Red, 4, 3), (Cell::Red, 0, 0)]);
    assert_eq!(board.width(), 7);
    assert_eq!(board.height(), 6);
    assert_eq!(board.cells().len(), 42);
}

#[test]
fn cells_are_stored_row_by_row_from_the_top() {
    let mut board = Board::new();
    board.play(Cell::Yellow, 5, 0);
    board.play(Cell::Red, 5, 6);
    board.play(Cell::Red, 4, 6);
    let cells = board.cells();
    assert_eq!(cells[35], Cell::Yellow);
    assert_eq!(cells[41], Cell::Red);
    assert_eq!(cells[34], Cell::Red);
    assert_eq!(cells.iter().filter(|c| **c != Cell::Empty).count(), 3);
}

#[test]
fn a_floating_cell_is_refused() {
    let mut board = Board::new();
    for row in 0..5 {
        for col in 0..7 {
            assert_eq!(board.play(Cell::Yellow, row, col), Result::InvalidMove);
        }
    }
    assert!(board.cells().iter().all(|c| *c == Cell::Empty));
    board.play(Cell::Yellow, 5, 2);
    assert_eq!(board.play(Cell::Red, 3, 2), Result::InvalidMove);
    assert_eq!(board.play(Cell::Red, 4, 3), Result::InvalidMove);
    assert_eq!(board.play(Cell::Red, 4, 2), Result::Unfinished);
}

#[test]
fn a_full_column_is_refused() {
    let mut board = Board::new();
    let fill = [
        (Cell::Yellow, 5, 0),
        (Cell::Red, 4, 0),
        (Cell::Yellow, 3, 0),
        (Cell::Red, 2, 0),
        (Cell::Yellow, 1, 0),
        (Cell::Red, 0, 0),
    ];
    assert_eq!(play_all(&mut board, &fill), vec![Result::Unfinished; 6]);
    let before = board.cells().to_vec();
    for row in -1..7 {
        assert_eq!(board.play(Cell::Yellow, row, 0), Result::InvalidMove);
    }
    assert_eq!(board.cells(), &before[..]);
    assert_eq!(board.play(Cell::Yellow, 5, 1), Result::Unfinished);
}

#[test]
fn coordinates_off_the_board_are_refused() {
    let mut board = Board::new();
    let off = [
        (-1, 0),
        (5, -1),
        (6, 0),
        (5, 7),
        (-1, -1),
        (6, 7),
        (i8::MIN, 0),
        (0, i8::MIN),
        (i8::MAX, 0),
        (5, i8::MAX),
        (i8::MAX, i8::MAX),
        (i8::MIN, i8::MIN),
    ];
    for (row, col) in off {
        assert_eq!(board.play(Cell::Yellow, row, col), Result::InvalidMove);
        assert_eq!(board.play(Cell::Red, row, col), Result::InvalidMove);
    }
    assert!(board.cells().iter().all(|c| *c == Cell::Empty));
}

#[test]
fn a_column_past_the_edge_does_not_wrap_into_the_next_row() {
    // Row 4, column 7 would share its index with row 5, column 0.
    let mut board = Board::new();
    assert_eq!(board.play(Cell::Yellow, 4, 7), Result::InvalidMove);
    assert_eq!(board.play(Cell::Yellow, 6, -7), Result::InvalidMove);
    assert_eq!(board.play(Cell::Yellow, 5, 0), Result::Unfinished);
    assert_eq!(board.play(Cell::Yellow, 3, 7), Result::InvalidMove);
    assert_eq!(board.cells().iter().filter(|c| **c != Cell::Empty).count(), 1);
}

#[test]
fn each_column_has_one_target() {
    for col in 0..7 {
        for row in 0..6 {
            let mut board = Board::new();
            board.play(Cell::Yellow, 5, 3);
            board.play(Cell::Red, 4, 3);
            let target = if col == 3 { 3 } else { 5 };
            let expected = if row == target { Result::Unfinished } else { Result::InvalidMove };
            assert_eq!(board.play(Cell::Yellow, row, col), expected);
        }
    }
}

#[test]
fn four_in_a_column_win() {
    let mut board = Board::new();
    let moves = [(Cell::Red, 5, 6), (Cell::Red, 4, 6), (Cell::Red, 3, 6), (Cell::Red, 2, 6)];
    assert_eq!(
        play_all(&mut board, &moves),
        vec![Result::Unfinished, Result::Unfinished, Result::Unfinished, Result::Win]
    );
}

#[test]
fn four_on_the_rising_diagonal_win() {
    let mut board = Board::new();
    let moves = [
        (Cell::Yellow, 5, 0),
        (Cell::Red, 5, 1),
        (Cell::Yellow, 4, 1),
        (Cell::Red, 5, 2),
        (Cell::Red, 4, 2),
        (Cell::Yellow, 3, 2),
        (Cell::Red, 5, 3),
        (Cell::Red, 4, 3),
        (Cell::Red, 3, 3),
    ];
    assert_eq!(play_all(&mut board, &moves), vec![Result::Unfinished; 9]);
    assert_eq!(board.play(Cell::Yellow, 2, 3), Result::Win);
}

#[test]
fn four_on_the_falling_diagonal_win() {
    let mut board = Board::new();
    let moves = [
        (Cell::Yellow, 5, 6),
        (Cell::Red, 5, 5),
        (Cell::Yellow, 4, 5),
        (Cell::Red, 5, 4),
        (Cell::Red, 4, 4),
        (Cell::Yellow, 3, 4),
        (Cell::Red, 5, 3),
        (Cell::Red, 4, 3),
        (Cell::Red, 3, 3),
    ];
    assert_eq!(play_all(&mut board, &moves), vec![Result::Unfinished; 9]);
    assert_eq!(board.play(Cell::Yellow, 2, 3), Result::Win);
}

#[test]
fn a_diagonal_is_won_from_its_lower_end_too() {
    // The last disc is the lowest of the four: the win is found by the
    // walk that goes up and to the right.
    let mut board = Board::new();
    let moves = [
        (Cell::Red, 5, 1),
        (Cell::Yellow, 4, 1),
        (Cell::Red, 5, 2),
        (Cell::Red, 4, 2),
        (Cell::Yellow, 3, 2),
        (Cell::Red, 5, 3),
        (Cell::Red, 4, 3),
        (Cell::Red, 3, 3),
        (Cell::Yellow, 2, 3),
    ];
    assert_eq!(play_all(&mut board, &moves), vec![Result::Unfinished; 9]);
    assert_eq!(board.play(Cell::Yellow, 5, 0), Result::Win);
}

#[test]
fn a_line_is_completed_from_the_middle() {
    let mut board = Board::new();
    let moves = [(Cell::Yellow, 5, 1), (Cell::Yellow, 5, 2), (Cell::Yellow, 5, 4)];
    assert_eq!(play_all(&mut board, &moves), vec![Result::Unfinished; 3]);
    assert_eq!(board.play(Cell::Yellow, 5, 3), Result::Win);
}

#[test]
fn more_than_four_in_a_row_win() {
    let mut board = Board::new();
    let moves = [
        (Cell::Red, 5, 0),
        (Cell::Red, 5, 1),
        (Cell::Red, 5, 3),
        (Cell::Red, 5, 4),
        (Cell::Red, 5, 5),
    ];
    assert_eq!(play_all(&mut board, &moves), vec![Result::Unfinished; 5]);
    assert_eq!(board.play(Cell::Red, 5, 2), Result::Win);
}

#[test]
fn three_in_a_row_between_two_opponents_do_not_win() {
    let mut board = Board::new();
    let moves = [
        (Cell::Red, 5, 0),
        (Cell::Yellow, 5, 1),
        (Cell::Red, 5, 4),
        (Cell::Yellow, 5, 2),
        (Cell::Yellow, 5, 3),
    ];
    assert_eq!(play_all(&mut board, &moves), vec![Result::Unfinished; 5]);
}

#[test]
fn three_in_a_row_between_the_edge_and_an_empty_cell_do_not_win() {
    let mut board = Board::new();
    let moves = [(Cell::Yellow, 5, 0), (Cell::Yellow, 5, 1), (Cell::Yellow, 5, 2)];
    assert_eq!(play_all(&mut board, &moves), vec![Result::Unfinished; 3]);
    let mut board = Board::new();
    let moves = [(Cell::Yellow, 5, 6), (Cell::Yellow, 5, 5), (Cell::Yellow, 5, 4)];
    assert_eq!(play_all(&mut board, &moves), vec![Result::Unfinished; 3]);
}

#[test]
fn three_in_a_column_under_the_top_edge_do_not_win() {
    let mut board = Board::new();
    let moves = [
        (Cell::Red, 5, 2),
        (Cell::Yellow, 4, 2),
        (Cell::Red, 3, 2),
        (Cell::Yellow, 2, 2),
        (Cell::Yellow, 1, 2),
        (Cell::Yellow, 0, 2),
    ];
    assert_eq!(play_all(&mut board, &moves), vec![Result::Unfinished; 6]);
}

#[test]
fn two_pairs_apart_do_not_win() {
    let mut board = Board::new();
    let moves = [
        (Cell::Yellow, 5, 0),
        (Cell::Yellow, 5, 1),
        (Cell::Yellow, 5, 3),
        (Cell::Yellow, 5, 4),
        (Cell::Red, 5, 2),
    ];
    assert_eq!(play_all(&mut board, &moves), vec![Result::Unfinished; 5]);
}

#[test]
fn the_engine_goes_on_after_a_win() {
    let mut board = Board::new();
    let moves = [
        (Cell::Yellow, 5, 0),
        (Cell::Yellow, 5, 1),
        (Cell::Yellow, 5, 2),
        (Cell::Yellow, 5, 3),
    ];
    assert_eq!(*play_all(&mut board, &moves).last().unwrap(), Result::Win);
    assert_eq!(board.play(Cell::Red, 4, 0), Result::Unfinished);
    assert_eq!(board.play(Cell::Yellow, 5, 4), Result::Win);
    assert_eq!(board.play(Cell::Yellow, 5, 4), Result::InvalidMove);
}

#[test]
fn the_engine_does_not_ask_whose_turn_it_is() {
    let mut board = Board::new();
    assert_eq!(board.play(Cell::Red, 5, 0), Result::Unfinished);
    assert_eq!(board.play(Cell::Red, 5, 1), Result::Unfinished);
    assert_eq!(board.play(Cell::Red, 4, 0), Result::Unfinished);
}

#[test]
fn an_empty_disc_changes_nothing() {
    // Writing `Empty` onto a drop target is a move like any other: the
    // cell is judged by the line of equal cells it lies in.
    let mut board = Board::new();
    assert_eq!(board.play(Cell::Empty, 5, 0), Result::Win);
    assert!(board.cells().iter().all(|c| *c == Cell::Empty));
    assert_eq!(board.play(Cell::Empty, 4, 0), Result::InvalidMove);
    let moves = [
        (Cell::Yellow, 5, 0),
        (Cell::Red, 5, 1),
        (Cell::Yellow, 5, 2),
        (Cell::Red, 5, 3),
        (Cell::Yellow, 5, 4),
        (Cell::Red, 5, 5),
        (Cell::Yellow, 5, 6),
        (Cell::Red, 4, 0),
        (Cell::Yellow, 3, 0),
        (Cell::Red, 4, 1),
        (Cell::Yellow, 4, 3),
    ];
    assert_eq!(play_all(&mut board, &moves), vec![Result::Unfinished; 11]);
    let before = board.cells().to_vec();
    // Both cells have empty cells above them up to the top row.
    assert_eq!(board.play(Cell::Empty, 4, 2), Result::Win);
    assert_eq!(board.play(Cell::Empty, 3, 1), Result::Win);
    assert_eq!(board.cells(), &before[..]);
}
