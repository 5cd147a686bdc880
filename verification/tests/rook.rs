use std::collections::HashSet;

use woodpusher::board::{Board, Piece, PieceType, Player, Position};
use woodpusher::board::Player::{Black, White};
use woodpusher::game::Game;
use woodpusher::game::rook::list_rook_moves;

fn pos(s: &str) -> Position {
    Position::from(s).unwrap()
}

#[test]
fn rook_from_a1() {
    // Given
    let game = Game::from_board(
        Board::empty().put(pos("a1"), Piece::new(PieceType::Rook, Player::White)),
        White,
    );

    // When
    let result = list_rook_moves(&game, pos("a1"), White);

    //Then
    let expected: HashSet<Position> = [
        "a2", "a3", "a4", "a5", "a6", "a7", "a8", "b1", "c1", "d1", "e1", "f1", "g1", "h1",
    ]
    .iter()
    .map(|p| pos(p))
    .collect();
    let result_positions: HashSet<Position> = result.iter().map(|mv| mv.to).collect();
    assert_eq!(result_positions, expected);
}

#[test]
fn rook_from_h8() {
    // Given
    let game = Game::from_board(
        Board::empty().put(pos("h8"), Piece::new(PieceType::Rook, Player::White)),
        White,
    );

    // When
    let result = list_rook_moves(&game, pos("h8"), White);

    //Then
    let expected: HashSet<Position> = [
        "h7", "h6", "h5", "h4", "h3", "h2", "h1", "a8", "b8", "c8", "d8", "e8", "f8", "g8",
    ]
    .iter()
    .map(|p| pos(p))
    .collect();
    let result_positions: HashSet<Position> = result.iter().map(|mv| mv.to).collect();
    assert_eq!(result_positions, expected);
}

#[test]
fn friend_in_the_way() {
    // Given
    let board = Board::empty()
        .put(pos("a1"), Piece::new(PieceType::Rook, Player::White))
        .put(pos("a2"), Piece::new(PieceType::Pawn, White));
    let game = Game::from_board(board, White);

    // When
    let result = list_rook_moves(&game, pos("a1"), White);

    //Then
    let expected: HashSet<Position> = ["b1", "c1", "d1", "e1", "f1", "g1", "h1"]
        .iter()
        .map(|p| pos(p))
        .collect();
    let result_positions: HashSet<Position> = result.iter().map(|mv| mv.to).collect();
    assert_eq!(result_positions, expected);
}

#[test]
fn friend_in_the_way2() {
    // Given
    let board = Board::empty()
        .put(pos("a1"), Piece::new(PieceType::Rook, Player::White))
        .put(pos("b1"), Piece::new(PieceType::Pawn, White));
    let game = Game::from_board(board, White);

    // When
    let result = list_rook_moves(&game, pos("a1"), White);

    //Then
    let expected: HashSet<Position> = ["a2", "a3", "a4", "a5", "a6", "a7", "a8"]
        .iter()
        .map(|p| pos(p))
        .collect();
    let result_positions: HashSet<Position> = result.iter().map(|mv| mv.to).collect();
    assert_eq!(result_positions, expected);
}

#[test]
fn enemy_in_the_way() {
    // Given
    let board = Board::empty()
        .put(pos("a1"), Piece::new(PieceType::Rook, Player::White))
        .put(pos("a2"), Piece::new(PieceType::Pawn, Black));
    let game = Game::from_board(board, White);

    // When
    let result = list_rook_moves(&game, pos("a1"), White);

    //Then
    let expected: HashSet<Position> = ["b1", "c1", "d1", "e1", "f1", "g1", "h1", "a2"]
        .iter()
        .map(|p| pos(p))
        .collect();
    let result_positions: HashSet<Position> = result.iter().map(|mv| mv.to).collect();
    assert_eq!(result_positions, expected);
}

#[test]
fn enemy_in_the_way2() {
    // Given
    let board = Board::empty()
        .put(pos("a1"), Piece::new(PieceType::Rook, Player::White))
        .put(pos("b1"), Piece::new(PieceType::Pawn, Black));
    let game = Game::from_board(board, White);

    // When
    let result = list_rook_moves(&game, pos("a1"), White);

    //Then
    let expected: HashSet<Position> = ["a2", "a3", "a4", "a5", "a6", "a7", "a8", "b1"]
        .iter()
        .map(|p| pos(p))
        .collect();
    let result_positions: HashSet<Position> = result.iter().map(|mv| mv.to).collect();
    assert_eq!(result_positions, expected);
}
