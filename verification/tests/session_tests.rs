use tetris_core::gameboard::{Action, Direction, BOARD_HEIGHT, BOARD_WIDTH};
use tetris_core::piece::{Color, Position, Square};
use tetris_core::piece_factory::{PieceFactory, PieceType};
use tetris_core::session::Session;

fn anchor_row(session: &Session) -> isize {
    session.board.get_current_piece().get_squares()[0]
        .get_position()
        .y
}

#[test]
fn gravity_waits_for_the_fall_interval() {
    let mut session = Session::new(1, 1);
    assert_eq!(anchor_row(&session), 20);
    session.tick(100);
    assert_eq!(anchor_row(&session), 20);
    session.tick(150);
    assert_eq!(anchor_row(&session), 19);
}

#[test]
fn a_hard_drop_arms_an_immediate_lock() {
    let mut session = Session::new(1, 1);
    session.handle_action(Action::Move(Direction::Top));
    assert_eq!(session.board.get_score(), 40);
    session.tick(1);
    // the piece locked and a fresh one entered at the play anchor
    assert_eq!(anchor_row(&session), 20);
    assert!(session.board.keep_playing());
}

#[test]
fn a_lateral_move_cancels_the_lock_countdown() {
    let mut session = Session::new(1, 1);
    session.lock_timer_ms = 200;
    session.handle_action(Action::Move(Direction::Left));
    assert_eq!(session.lock_timer_ms, 0);
}

#[test]
fn an_even_new_line_count_raises_the_level_and_speed() {
    let mut session = Session::new(1, 1);
    for row in 0..2 {
        for column in 0..BOARD_WIDTH {
            if column != 1 && column != 2 {
                let idx = column * BOARD_HEIGHT + row;
                session.board.space_board[idx] = true;
                session.board.square_board[idx] = Some(Square::new(
                    Position::new(column as isize, row as isize),
                    Color::Red,
                ));
            }
        }
    }
    let mut piece = PieceFactory::get_piece(PieceType::Square);
    piece.move_at(Position::new(1, 0));
    session.board.current_piece = piece;

    session.tick(250);
    assert_eq!(session.board.get_lines_cleared(), 0);
    session.tick(250);

    assert_eq!(session.board.get_lines_cleared(), 2);
    assert_eq!(session.board.get_score(), 300);
    assert_eq!(session.board.get_level(), 2);
    assert_eq!(session.fall_interval_ms, 200);
    assert_eq!(session.lock_delay_ms, 337);
    assert_eq!(session.hold_lines_cleared, 2);
}

#[test]
fn a_hold_swaps_in_the_held_piece() {
    let mut session = Session::new(1, 1);
    session.handle_action(Action::Hold);
    assert!(session.board.get_held_piece().is_some());
    assert!(!session.board.can_swap);
}
