use std::collections::HashSet;

use woodpusher::board::{Board, Piece, PieceType, Player, Position};
use woodpusher::game::Game;
use woodpusher::game::pawn::list_pawn_moves;

fn pos(s: &str) -> Position {
    Position::from(s).unwrap()
}

#[test]
fn promotion() {
    // Given
    let game = Game::from_board(
        Board::empty().put(pos("a7"), Piece::new(PieceType::Pawn, Player::White)),
        Player::White,
    );

    // When
    let result = list_pawn_moves(&game, pos("a7"), Player::White);

    // Then
    let expected: HashSet<PieceType> =
        [PieceType::Queen, PieceType::Rook, PieceType::Bishop, PieceType::Knight]
            .iter()
            .copied()
            .collect();
    let promotion_result: HashSet<PieceType> =
        result.iter().map(|r| r.promotion.unwrap()).collect();
    assert_eq!(promotion_result, expected);
}

#[test]
fn promotion2() {
    // Given
    let game = Game::from_board(
        Board::empty().put(pos("b7"), Piece::new(PieceType::Pawn, Player::White)),
        Player::White,
    );

    // When
    let result = list_pawn_moves(&game, pos("b7"), Player::White);

    // Then
    let expected: HashSet<PieceType> =
        [PieceType::Queen, PieceType::Rook, PieceType::Bishop, PieceType::Knight]
            .iter()
            .copied()
            .collect();
    let promotion_result: HashSet<PieceType> =
        result.iter().map(|r| r.promotion.unwrap()).collect();
    assert_eq!(promotion_result, expected);
}

#[test]
fn no_promotion() {
    // Given
    let game = Game::from_board(
        Board::empty().put(pos("a6"), Piece::new(PieceType::Pawn, Player::White)),
        Player::White,
    );

    // When
    let result = list_pawn_moves(&game, pos("a6"), Player::White);

    // Then
    assert!(result.iter().map(|x| x.promotion).collect::<Vec<_>>().contains(&None));
}

#[test]
fn promotion_black() {
    // Given
    let game = Game::from_board(
        Board::empty().put(pos("a2"), Piece::new(PieceType::Pawn, Player::Black)),
        Player::Black,
    );

    // When
    let result = list_pawn_moves(&game, pos("a2"), Player::Black);

    // Then
    let expected: HashSet<PieceType> =
        [PieceType::Queen, PieceType::Rook, PieceType::Bishop, PieceType::Knight]
            .iter()
            .copied()
            .collect();
    let promotion_result: HashSet<PieceType> =
        result.iter().map(|r| r.promotion.unwrap()).collect();
    assert_eq!(promotion_result, expected);
}

#[test]
fn no_capture() {
    // Given
    let game = Game::from_board(
        Board::empty()
            .put(pos("e6"), Piece::new(PieceType::Pawn, Player::White))
            .put(pos("e7"), Piece::new(PieceType::Pawn, Player::Black)),
        Player::Black,
    );

    // When
    let result = list_pawn_moves(&game, pos("e7"), Player::Black);

    // Then
    assert!(!result.iter().map(|mv| mv.to).collect::<Vec<Position>>().contains(&pos("e6")));
}

#[test]
fn no_capture_on_start() {
    // Given
    let game = Game::from_board(
        Board::empty()
            .put(pos("e5"), Piece::new(PieceType::Pawn, Player::White))
            .put(pos("e7"), Piece::new(PieceType::Pawn, Player::Black)),
        Player::Black,
    );

    // When
    let result = list_pawn_moves(&game, pos("e7"), Player::Black);

    // Then
    assert!(!result.iter().map(|mv| mv.to).collect::<Vec<Position>>().contains(&pos("e5")));
}
