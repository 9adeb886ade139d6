use tetris_core::gameboard::{Direction, GameBoard, BOARD_HEIGHT, BOARD_WIDTH};
use tetris_core::piece::{Color, Piece, Position, RotationType, Square};
use tetris_core::piece_factory::{PieceFactory, PieceType};

fn occupy(board: &mut GameBoard, column: usize, row: usize) {
    let idx = column * BOARD_HEIGHT + row;
    board.space_board[idx] = true;
    board.square_board[idx] = Some(Square::new(
        Position::new(column as isize, row as isize),
        Color::Red,
    ));
}

fn fill_row_except(board: &mut GameBoard, row: usize, gaps: &[usize]) {
    for column in 0..BOARD_WIDTH {
        if !gaps.contains(&column) {
            occupy(board, column, row);
        }
    }
}

fn column_piece(column: isize) -> Piece {
    let squares = vec![
        Square::new(Position::new(column, 0), Color::Cyan),
        Square::new(Position::new(column, 1), Color::Cyan),
        Square::new(Position::new(column, 2), Color::Cyan),
        Square::new(Position::new(column, 3), Color::Cyan),
    ];
    Piece::new(squares, RotationType::AroundSquare, PieceType::Straight)
}

#[test]
fn is_free_rejects_anything_off_the_board() {
    let board = GameBoard::new(1, 1);
    assert!(!board.is_free(Position::new(-1, 0)));
    assert!(!board.is_free(Position::new(10, 0)));
    assert!(!board.is_free(Position::new(0, -1)));
    assert!(!board.is_free(Position::new(0, 22)));
    assert!(board.is_free(Position::new(0, 0)));
    assert!(board.is_free(Position::new(9, 21)));
}

#[test]
fn locking_the_last_gap_clears_exactly_that_row() {
    let mut board = GameBoard::new(1, 1);
    fill_row_except(&mut board, 0, &[1, 2]);
    let mut piece = PieceFactory::get_piece(PieceType::Square);
    piece.move_at(Position::new(1, 0));
    board.current_piece = piece;

    board.lock_current_piece();

    assert_eq!(board.get_lines_cleared(), 1);
    assert_eq!(board.get_score(), 100);
    assert!(board.keep_playing());
    // the square piece's upper two cells collapsed down one row
    assert!(!board.is_free(Position::new(1, 0)));
    assert!(!board.is_free(Position::new(2, 0)));
    assert!(board.is_free(Position::new(0, 0)));
    assert!(board.is_free(Position::new(3, 0)));
    assert!(board.is_free(Position::new(1, 1)));
    assert!(board.is_free(Position::new(2, 1)));
}

#[test]
fn clearing_two_rows_scores_triple_points() {
    let mut board = GameBoard::new(1, 1);
    fill_row_except(&mut board, 0, &[1, 2]);
    fill_row_except(&mut board, 1, &[1, 2]);
    let mut piece = PieceFactory::get_piece(PieceType::Square);
    piece.move_at(Position::new(1, 0));
    board.current_piece = piece;

    board.lock_current_piece();

    assert_eq!(board.get_lines_cleared(), 2);
    assert_eq!(board.get_score(), 300);
    assert!(board.is_free(Position::new(1, 0)));
    assert!(board.is_free(Position::new(0, 0)));
}

#[test]
fn clearing_three_rows_scores_five_hundred() {
    let mut board = GameBoard::new(1, 1);
    fill_row_except(&mut board, 0, &[5]);
    fill_row_except(&mut board, 1, &[5]);
    fill_row_except(&mut board, 2, &[5]);
    board.current_piece = column_piece(5);

    board.lock_current_piece();

    assert_eq!(board.get_lines_cleared(), 3);
    assert_eq!(board.get_score(), 500);
    // the column's leftover top cell collapsed to the bottom row
    assert!(!board.is_free(Position::new(5, 0)));
    assert!(board.is_free(Position::new(5, 1)));
}

#[test]
fn clearing_four_rows_scores_eight_hundred() {
    let mut board = GameBoard::new(1, 1);
    fill_row_except(&mut board, 0, &[5]);
    fill_row_except(&mut board, 1, &[5]);
    fill_row_except(&mut board, 2, &[5]);
    fill_row_except(&mut board, 3, &[5]);
    board.current_piece = column_piece(5);

    board.lock_current_piece();

    assert_eq!(board.get_lines_cleared(), 4);
    assert_eq!(board.get_score(), 800);
    assert!(board.is_free(Position::new(5, 0)));
}

#[test]
fn line_points_scale_with_the_level() {
    let mut board = GameBoard::new(1, 3);
    fill_row_except(&mut board, 0, &[1, 2]);
    let mut piece = PieceFactory::get_piece(PieceType::Square);
    piece.move_at(Position::new(1, 0));
    board.current_piece = piece;

    board.lock_current_piece();

    assert_eq!(board.get_lines_cleared(), 1);
    assert_eq!(board.get_score(), 300);
}

#[test]
fn locking_without_a_full_row_awards_nothing() {
    let mut board = GameBoard::new(1, 1);
    board.lock_current_piece();
    assert_eq!(board.get_lines_cleared(), 0);
    assert_eq!(board.get_score(), 0);
}

#[test]
fn first_piece_settles_at_the_bottom() {
    let mut board = GameBoard::new(1, 1);
    let mut falls = 0;
    while board.try_fall().is_ok() {
        falls += 1;
        assert!(falls <= 22);
    }
    assert_eq!(falls, 20);

    board.lock_current_piece();

    assert!(board.keep_playing());
    assert_eq!(board.get_lines_cleared(), 0);
    assert!(board.can_swap);
    let mut bottom_occupied = false;
    for column in 0..10 {
        if !board.is_free(Position::new(column, 0)) {
            bottom_occupied = true;
        }
    }
    assert!(bottom_occupied);
}

#[test]
fn holding_twice_without_a_lock_fails() {
    let mut board = GameBoard::new(1, 1);
    assert!(board.try_swap().is_ok());
    assert!(board.get_held_piece().is_some());
    let held_before = board.get_held_piece().clone();
    let score_before = board.get_score();

    assert!(board.try_swap().is_err());

    assert!(!board.can_swap);
    assert_eq!(board.get_score(), score_before);
    assert!(board.get_held_piece() == &held_before);
}

#[test]
fn locking_re_arms_the_hold_slot() {
    let mut board = GameBoard::new(1, 1);
    assert!(board.try_swap().is_ok());
    assert!(board.try_swap().is_err());
    board.lock_current_piece();
    assert!(board.can_swap);
    assert!(board.try_swap().is_ok());
}

#[test]
fn moving_into_the_wall_fails() {
    let mut board = GameBoard::new(1, 1);
    let mut moved = 0;
    while board.try_move(Direction::Left).is_ok() {
        moved += 1;
        assert!(moved <= 10);
    }
    assert!(board.try_move(Direction::Left).is_err());
}

#[test]
fn the_square_piece_never_rotates() {
    let mut board = GameBoard::new(1, 1);
    let mut piece = PieceFactory::get_piece(PieceType::Square);
    piece.move_at(Position::new(4, 10));
    board.current_piece = piece;
    assert!(board.try_rotate().is_err());
}

#[test]
fn a_t_piece_in_the_open_rotates() {
    let mut board = GameBoard::new(1, 1);
    let mut piece = PieceFactory::get_piece(PieceType::T);
    piece.move_at(Position::new(4, 10));
    board.current_piece = piece;
    assert!(board.try_rotate().is_ok());
}

#[test]
fn a_soft_drop_scores_one_point_per_row() {
    let mut board = GameBoard::new(1, 1);
    assert!(board.try_move(Direction::Bottom).is_ok());
    assert_eq!(board.get_score(), 1);
}

#[test]
fn a_hard_drop_scores_two_points_per_row() {
    let mut board = GameBoard::new(1, 1);
    assert!(board.try_move(Direction::Top).is_ok());
    // from the play anchor the piece always falls twenty rows on an empty
    // board
    assert_eq!(board.get_score(), 40);
    assert!(board.try_fall().is_err());
}

#[test]
fn boards_with_one_seed_agree_on_the_queue() {
    let board1 = GameBoard::new(9, 1);
    let board2 = GameBoard::new(9, 1);
    assert!(board1.get_current_piece() == board2.get_current_piece());
    assert!(board1.get_next_piece() == board2.get_next_piece());
}

#[test]
fn a_blocked_fall_reports_its_error() {
    let mut board = GameBoard::new(1, 1);
    board.current_piece = column_piece(5);
    assert!(board.try_fall().is_err());
}
