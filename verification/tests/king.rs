use std::collections::HashSet;

use woodpusher::board::{Board, Piece, PieceType, Player, Position};
use woodpusher::board::Player::{Black, White};
use woodpusher::game::Game;
use woodpusher::game::king::{list_castle_moves, list_king_moves};

fn pos(s: &str) -> Position {
    Position::from(s).unwrap()
}

#[test]
fn king_from_a1() {
    // Given
    let game = Game::from_board(
        Board::empty().put(pos("a1"), Piece::new(PieceType::King, Player::White)),
        White,
    );

    // When
    let result = list_king_moves(&game, pos("a1"), White);

    //Then
    let expected: HashSet<Position> = ["a2", "b1", "b2"].iter().map(|p| pos(p)).collect();
    let result_positions: HashSet<Position> = result.iter().map(|mv| mv.to).collect();
    assert_eq!(result_positions, expected);
}

#[test]
fn king_from_a8() {
    // Given
    let game = Game::from_board(
        Board::empty().put(pos("a8"), Piece::new(PieceType::King, Player::White)),
        White,
    );

    // When
    let result = list_king_moves(&game, pos("a8"), White);

    //Then
    let expected: HashSet<Position> = ["a7", "b8", "b7"].iter().map(|p| pos(p)).collect();
    let result_positions: HashSet<Position> = result.iter().map(|mv| mv.to).collect();
    assert_eq!(result_positions, expected);
}

#[test]
fn king_from_h8() {
    // Given
    let game = Game::from_board(
        Board::empty().put(pos("h8"), Piece::new(PieceType::King, Player::White)),
        White,
    );

    // When
    let result = list_king_moves(&game, pos("h8"), White);

    //Then
    let expected: HashSet<Position> = ["h7", "g8", "g7"].iter().map(|p| pos(p)).collect();
    let result_positions: HashSet<Position> = result.iter().map(|mv| mv.to).collect();
    assert_eq!(result_positions, expected);
}

#[test]
fn king_from_h1() {
    // Given
    let game = Game::from_board(
        Board::empty().put(pos("h1"), Piece::new(PieceType::King, Player::White)),
        White,
    );

    // When
    let result = list_king_moves(&game, pos("h1"), White);

    //Then
    let expected: HashSet<Position> = ["h2", "g1", "g2"].iter().map(|p| pos(p)).collect();
    let result_positions: HashSet<Position> = result.iter().map(|mv| mv.to).collect();
    assert_eq!(result_positions, expected);
}

#[test]
fn castle_h() {
    // Given
    let game = Game::from_board_with_castle(
        Board::empty()
            .put(pos("e1"), Piece::new(PieceType::King, Player::White))
            .put(pos("e8"), Piece::new(PieceType::King, Player::Black))
            .put(pos("h1"), Piece::new(PieceType::Rook, Player::White)),
        White,
        false,
        true,
        false,
        false,
    );

    // When
    let result = list_castle_moves(&game, pos("e1"), White);

    //Then
    let expected: HashSet<Position> = ["g1"].iter().map(|p| pos(p)).collect();
    let result_positions: HashSet<Position> = result.iter().map(|mv| mv.to).collect();
    assert_eq!(result_positions, expected);
}

#[test]
fn castle_h_impossible() {
    // Given
    let game = Game::from_board_with_castle(
        Board::empty()
            .put(pos("e1"), Piece::new(PieceType::King, Player::White))
            .put(pos("e8"), Piece::new(PieceType::King, Player::Black))
            .put(pos("h1"), Piece::new(PieceType::Rook, Player::White)),
        White,
        false,
        false,
        false,
        false,
    );

    // When
    let result = list_castle_moves(&game, pos("e1"), White);

    //Then
    assert!(result.is_empty());
}

#[test]
fn castle_a() {
    // Given
    let game = Game::from_board_with_castle(
        Board::empty()
            .put(pos("e1"), Piece::new(PieceType::King, Player::White))
            .put(pos("e8"), Piece::new(PieceType::King, Player::Black))
            .put(pos("a1"), Piece::new(PieceType::Rook, Player::White)),
        White,
        true,
        false,
        false,
        false,
    );

    // When
    let result = list_castle_moves(&game, pos("e1"), White);

    //Then
    let expected: HashSet<Position> = ["c1"].iter().map(|p| pos(p)).collect();
    let result_positions: HashSet<Position> = result.iter().map(|mv| mv.to).collect();
    assert_eq!(result_positions, expected);
}

#[test]
fn castle_both() {
    // Given
    let game = Game::from_board_with_castle(
        Board::empty()
            .put(pos("e1"), Piece::new(PieceType::King, Player::White))
            .put(pos("e8"), Piece::new(PieceType::King, Player::Black))
            .put(pos("a1"), Piece::new(PieceType::Rook, Player::White))
            .put(pos("h1"), Piece::new(PieceType::Rook, Player::White)),
        White,
        true,
        true,
        false,
        false,
    );

    // When
    let result = list_castle_moves(&game, pos("e1"), White);

    //Then
    let expected: HashSet<Position> = ["c1", "g1"].iter().map(|p| pos(p)).collect();
    let result_positions: HashSet<Position> = result.iter().map(|mv| mv.to).collect();
    assert_eq!(result_positions, expected);
}

#[test]
fn castle_h_intermediary_check() {
    // Given
    let game = Game::from_board_with_castle(
        Board::empty()
            .put(pos("e1"), Piece::new(PieceType::King, Player::White))
            .put(pos("e8"), Piece::new(PieceType::King, Player::Black))
            .put(pos("h1"), Piece::new(PieceType::Rook, Player::White))
            .put(pos("f8"), Piece::new(PieceType::Rook, Player::Black)),
        White,
        false,
        true,
        false,
        false,
    );

    // When
    let result = list_castle_moves(&game, pos("e1"), White);

    //Then
    assert!(result.is_empty());
}

#[test]
fn castle_a_intermediary_check() {
    // Given
    let game = Game::from_board_with_castle(
        Board::empty()
            .put(pos("e1"), Piece::new(PieceType::King, Player::White))
            .put(pos("e8"), Piece::new(PieceType::King, Player::Black))
            .put(pos("a1"), Piece::new(PieceType::Rook, Player::White))
            .put(pos("d8"), Piece::new(PieceType::Rook, Player::Black)),
        White,
        true,
        false,
        false,
        false,
    );

    // When
    let result = list_castle_moves(&game, pos("e1"), White);

    //Then
    assert!(result.is_empty());
}

#[test]
fn castle_h_black() {
    // Given
    let game = Game::from_board_with_castle(
        Board::empty()
            .put(pos("e1"), Piece::new(PieceType::King, Player::White))
            .put(pos("e8"), Piece::new(PieceType::King, Player::Black))
            .put(pos("h8"), Piece::new(PieceType::Rook, Player::Black)),
        Black,
        false,
        false,
        false,
        true,
    );

    // When
    let result = list_castle_moves(&game, pos("e8"), Black);

    //Then
    let expected: HashSet<Position> = ["g8"].iter().map(|p| pos(p)).collect();
    let result_positions: HashSet<Position> = result.iter().map(|mv| mv.to).collect();
    assert_eq!(result_positions, expected);
}
