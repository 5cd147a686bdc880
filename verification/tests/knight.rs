use std::collections::HashSet;

use woodpusher::board::{Board, Piece, PieceType, Player, Position};
use woodpusher::board::Player::{Black, White};
use woodpusher::game::Game;
use woodpusher::game::knight::list_knight_moves;

fn pos(s: &str) -> Position {
    Position::from(s).unwrap()
}

#[test]
fn knight_from_a1() {
    // Given
    let game = Game::from_board(
        Board::empty().put(pos("a1"), Piece::new(PieceType::Knight, Player::White)),
        White,
    );

    // When
    let result = list_knight_moves(&game, pos("a1"), White);

    //Then
    let expected: HashSet<Position> = ["b3", "c2"].iter().map(|p| pos(p)).collect();
    let result_positions: HashSet<Position> = result.iter().map(|mv| mv.to).collect();
    assert_eq!(result_positions, expected);
}

#[test]
fn knight_from_a8() {
    // Given
    let game = Game::from_board(
        Board::empty().put(pos("a8"), Piece::new(PieceType::Knight, Player::White)),
        White,
    );

    // When
    let result = list_knight_moves(&game, pos("a8"), White);

    //Then
    let expected: HashSet<Position> = ["b6", "c7"].iter().map(|p| pos(p)).collect();
    let result_positions: HashSet<Position> = result.iter().map(|mv| mv.to).collect();
    assert_eq!(result_positions, expected);
}

#[test]
fn knight_from_h8() {
    // Given
    let game = Game::from_board(
        Board::empty().put(pos("h8"), Piece::new(PieceType::Knight, Player::White)),
        White,
    );

    // When
    let result = list_knight_moves(&game, pos("h8"), White);

    //Then
    let expected: HashSet<Position> = ["f7", "g6"].iter().map(|p| pos(p)).collect();
    let result_positions: HashSet<Position> = result.iter().map(|mv| mv.to).collect();
    assert_eq!(result_positions, expected);
}

#[test]
fn knight_from_h1() {
    // Given
    let game = Game::from_board(
        Board::empty().put(pos("h1"), Piece::new(PieceType::Knight, Player::White)),
        White,
    );

    // When
    let result = list_knight_moves(&game, pos("h1"), White);

    //Then
    let expected: HashSet<Position> = ["f2", "g3"].iter().map(|p| pos(p)).collect();
    let result_positions: HashSet<Position> = result.iter().map(|mv| mv.to).collect();
    assert_eq!(result_positions, expected);
}
