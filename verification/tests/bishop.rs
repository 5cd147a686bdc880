use std::collections::HashSet;

use woodpusher::board::{Board, Piece, PieceType, Player, Position};
use woodpusher::board::Player::{Black, White};
use woodpusher::game::Game;
use woodpusher::game::bishop::list_bishop_moves;

fn pos(s: &str) -> Position {
    Position::from(s).unwrap()
}

#[test]
fn bishop_from_a1() {
    // Given
    let game = Game::from_board(
        Board::empty().put(pos("a1"), Piece::new(PieceType::Bishop, Player::White)),
        White,
    );

    // When
    let result = list_bishop_moves(&game, pos("a1"), White);

    //Then
    let expected: HashSet<Position> = ["b2", "c3", "d4", "e5", "f6", "g7", "h8"]
        .iter()
        .map(|p| pos(p))
        .collect();
    let result_positions: HashSet<Position> = result.iter().map(|mv| mv.to).collect();
    assert_eq!(result_positions, expected);
}

#[test]
fn bishop_from_a8() {
    // Given
    let game = Game::from_board(
        Board::empty().put(pos("a8"), Piece::new(PieceType::Bishop, Player::White)),
        White,
    );

    // When
    let result = list_bishop_moves(&game, pos("a8"), White);

    //Then
    let expected: HashSet<Position> = ["b7", "c6", "d5", "e4", "f3", "g2", "h1"]
        .iter()
        .map(|p| pos(p))
        .collect();
    let result_positions: HashSet<Position> = result.iter().map(|mv| mv.to).collect();
    assert_eq!(result_positions, expected);
}
