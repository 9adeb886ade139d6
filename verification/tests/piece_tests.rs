use tetris_core::piece::{Color, Piece, Position, RotationType, Square};
use tetris_core::piece_factory::{PieceFactory, PieceType};

#[test]
fn rotation_of_square_around_itself_is_identity() {
    let sut = Square::new(Position::new(5, 5), Color::Cyan);
    let rotation_type = RotationType::AroundSquare;
    let pivot = Position::new(5, 5);

    let result = sut.get_rotated_position(rotation_type, pivot);

    assert_eq!(result, Position::new(5, 5));
}

#[test]
fn rotation_of_square_90_around_point_is_correct() {
    let sut = Square::new(Position::new(4, 4), Color::Cyan);
    let rotation_type = RotationType::AroundPoint(Position::new(2, 2));
    let pivot = Position::new(2, 2);

    let result = sut.get_rotated_position(rotation_type, pivot);

    assert_eq!(result, Position::new(3, 0));
}

#[test]
fn rotation_of_square_360_around_point_is_identity() {
    let sut = Square::new(Position::new(4321, 1234), Color::Cyan);
    let rotation_type = RotationType::AroundPoint(Position::new(2, 2));
    let dummy_pivot = Position::new(123, 321);

    let mut result = sut.get_rotated_position(rotation_type, dummy_pivot);
    for _ in 0..3 {
        result = Square::new(result, Color::Cyan).get_rotated_position(rotation_type, dummy_pivot);
    }

    assert_eq!(result, sut.get_position());
}

#[test]
fn rotation_of_square_90_around_square_is_correct() {
    let sut = Square::new(Position::new(4, 4), Color::Cyan);
    let rotation_type = RotationType::AroundSquare;
    let pivot = Position::new(2, 2);

    let result = sut.get_rotated_position(rotation_type, pivot);

    assert_eq!(result, Position::new(4, 0));
}

#[test]
fn rotation_of_360_around_square_is_identity() {
    let sut = Square::new(Position::new(4321, 1234), Color::Cyan);
    let rotation_type = RotationType::AroundSquare;
    let dummy_pivot = Position::new(123, 321);

    let mut result = sut.get_rotated_position(rotation_type, dummy_pivot);
    for _ in 0..3 {
        result = Square::new(result, Color::Cyan).get_rotated_position(rotation_type, dummy_pivot);
    }

    assert_eq!(result, sut.get_position());
}

#[test]
fn rotating_a_piece_around_a_square_works() {
    let mut sut = PieceFactory::get_piece(PieceType::T);
    sut.move_at(Position::new(5, 5));

    let rotation_type = sut.get_rotation_type();
    let pivot = sut.get_squares()[0].get_position();
    let new_positions: Vec<Position> = sut
        .get_squares()
        .iter()
        .map(|square| square.get_rotated_position(rotation_type, pivot))
        .collect();

    assert_eq!(new_positions[0], Position::new(5, 5));
    assert_eq!(new_positions[1], Position::new(5, 6));
    assert_eq!(new_positions[2], Position::new(5, 4));
    assert_eq!(new_positions[3], Position::new(6, 5));
}

#[test]
fn rotating_around_square_still_correct_after_piece_falling_twice() {
    let mut sut = PieceFactory::get_piece(PieceType::T);
    sut.move_at(Position::new(5, 5));
    sut.translate(Position::new(0, -1));
    sut.translate(Position::new(0, -1));

    let rotation_type = sut.get_rotation_type();
    let pivot = sut.get_squares()[0].get_position();
    let new_positions: Vec<Position> = sut
        .get_squares()
        .iter()
        .map(|square| square.get_rotated_position(rotation_type, pivot))
        .collect();

    assert_eq!(new_positions[0], Position::new(5, 3));
    assert_eq!(new_positions[1], Position::new(5, 4));
    assert_eq!(new_positions[2], Position::new(5, 2));
    assert_eq!(new_positions[3], Position::new(6, 3));
}

#[test]
fn rotating_a_piece_four_times_restores_it() {
    let mut sut = PieceFactory::get_piece(PieceType::T);
    sut.move_at(Position::new(5, 5));
    let before: Vec<Position> = sut.get_squares().iter().map(|s| s.get_position()).collect();

    for _ in 0..4 {
        sut.rotate();
    }

    let after: Vec<Position> = sut.get_squares().iter().map(|s| s.get_position()).collect();
    assert_eq!(before, after);
}

#[test]
fn rotating_a_point_pivot_piece_four_times_restores_it() {
    let mut sut = PieceFactory::get_piece(PieceType::Straight);
    sut.move_at(Position::new(5, 5));
    let before: Vec<Position> = sut.get_squares().iter().map(|s| s.get_position()).collect();

    for _ in 0..4 {
        sut.rotate();
    }

    let after: Vec<Position> = sut.get_squares().iter().map(|s| s.get_position()).collect();
    assert_eq!(before, after);
}

#[test]
fn factory_builds_four_squares_with_the_type_color() {
    let piece = PieceFactory::get_piece(PieceType::LeftL);
    assert_eq!(piece.get_squares().len(), 4);
    assert_eq!(piece.get_piece_type(), PieceType::LeftL);
    for square in piece.get_squares().iter() {
        assert!(matches!(square.get_color(), Color::DarkBlue));
    }
}

#[test]
fn to_array_draws_the_t_stencil() {
    let piece = PieceFactory::get_piece(PieceType::T);
    let stencil = piece.to_array();
    // bottom row first, four cells per row, anchor at column 1
    let expected = vec![true, true, true, false, false, true, false, false];
    assert_eq!(stencil, expected);
}

#[test]
fn pieces_of_one_type_compare_equal_wherever_they_stand() {
    let mut a = PieceFactory::get_piece(PieceType::RightSkew);
    let b = PieceFactory::get_piece(PieceType::RightSkew);
    let c = PieceFactory::get_piece(PieceType::T);
    a.translate(Position::new(3, -7));
    assert!(a == b);
    assert!(a.has_same_type(&b));
    assert!(a != c);
}
