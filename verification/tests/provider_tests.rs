use tetris_core::piece::Piece;
use tetris_core::piece_factory::PieceType;
use tetris_core::piece_provider::{has_unique_elements, PieceBag, PieceProvider};

#[test]
fn ten_first_pieces_are_the_same_for_same_seed() {
    let mut provider1 = PieceProvider::new(1);
    let mut provider2 = PieceProvider::new(1);
    let mut result = true;

    for _ in 0..10 {
        let piece1 = provider1.get_piece();
        let piece2 = provider2.get_piece();
        result &= piece1 == piece2;
    }

    assert!(result);
}

#[test]
fn every_piece_in_a_bag_is_different() {
    let (mut bag, _) = PieceBag::new(1, 0);
    let mut pieces: Vec<Piece> = vec![];
    while let Some(piece) = bag.get_piece() {
        pieces.push(piece);
    }

    let result = has_unique_elements(&pieces);

    assert!(result);
}

#[test]
fn a_fresh_bag_holds_seven_pieces() {
    let (bag, _) = PieceBag::new(42, 0);
    assert_eq!(bag.get_bag_size(), 7);
}

#[test]
fn seven_consecutive_draws_cover_every_type_once() {
    let mut provider = PieceProvider::new(7);
    let mut counts = [0u32; 7];
    for _ in 0..7 {
        let piece = provider.get_piece();
        let slot = match piece.get_piece_type() {
            PieceType::T => 0,
            PieceType::LeftL => 1,
            PieceType::RightL => 2,
            PieceType::LeftSkew => 3,
            PieceType::RightSkew => 4,
            PieceType::Square => 5,
            PieceType::Straight => 6,
        };
        counts[slot] += 1;
    }
    for count in counts.iter() {
        assert_eq!(*count, 1);
    }
}

#[test]
fn different_seeds_shuffle_differently() {
    // if the shuffle handed its input back unchanged, every seed would
    // serve the same fixed sequence
    let mut provider1 = PieceProvider::new(1);
    let mut provider2 = PieceProvider::new(2);
    let mut all_equal = true;
    for _ in 0..14 {
        let piece1 = provider1.get_piece();
        let piece2 = provider2.get_piece();
        all_equal &= piece1.get_piece_type() == piece2.get_piece_type();
    }
    assert!(!all_equal);
}

#[test]
fn the_supply_never_runs_dry() {
    let mut provider = PieceProvider::new(3);
    for _ in 0..50 {
        let piece = provider.get_piece();
        assert_eq!(piece.get_squares().len(), 4);
    }
}
