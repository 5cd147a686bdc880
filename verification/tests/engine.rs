use woodpusher::board::{Board, Piece, PieceType, Player, Position};
use woodpusher::engine::select_move;
use woodpusher::game::Game;

fn pos(s: &str) -> Position {
    Position::from(s).unwrap()
}

#[test]
fn simple_run() {
    select_move(&Game::new(), 1);
}

#[test]
fn depth_one_score_matches_resulting_position() {
    // The depth-1 search must score the position reached by its chosen
    // move exactly as the static evaluation does: no off-by-one ply.
    let game = Game::new();

    let (best, score) = select_move(&game, 1);

    let chosen = best.expect("the starting position has legal moves");
    let after = chosen.new_game(&game);
    let (none, direct) = select_move(&after, 0);
    assert!(none.is_none());
    assert_eq!(direct, score);
    assert!(score.abs() < 20000);
}

#[test]
fn mate_is_scored_with_the_mate_constant() {
    // Black to move, king cornered on a8 by queen b7 guarded by king b6.
    let board = Board::empty()
        .put(pos("a8"), Piece::new(PieceType::King, Player::Black))
        .put(pos("b7"), Piece::new(PieceType::Queen, Player::White))
        .put(pos("b6"), Piece::new(PieceType::King, Player::White));
    let game = Game::from_board_with_castle(board, Player::Black, false, false, false, false);

    assert!(game.is_mate());
    assert!(!game.is_stalemate());
    let (best, score) = select_move(&game, 0);
    assert!(best.is_none());
    assert_eq!(score, 20000);
}

#[test]
fn white_mated_is_scored_negative() {
    let board = Board::empty()
        .put(pos("a1"), Piece::new(PieceType::King, Player::White))
        .put(pos("b2"), Piece::new(PieceType::Queen, Player::Black))
        .put(pos("b3"), Piece::new(PieceType::King, Player::Black));
    let game = Game::from_board_with_castle(board, Player::White, false, false, false, false);

    assert!(game.is_mate());
    let (_, score) = select_move(&game, 0);
    assert_eq!(score, -20000);
}

#[test]
fn stalemate_is_scored_zero() {
    // Black to move: the king on a8 has no move but is not attacked.
    let board = Board::empty()
        .put(pos("a8"), Piece::new(PieceType::King, Player::Black))
        .put(pos("b6"), Piece::new(PieceType::Queen, Player::White));
    let game = Game::from_board_with_castle(board, Player::Black, false, false, false, false);

    assert!(game.is_stalemate());
    assert!(!game.is_mate());
    let (best, score) = select_move(&game, 0);
    assert!(best.is_none());
    assert_eq!(score, 0);
}

#[test]
fn start_position_evaluates_to_zero() {
    // Material and mobility balance out in the symmetric start position.
    let (_, score) = select_move(&Game::new(), 0);
    assert_eq!(score, 0);
}

#[test]
fn search_takes_a_hanging_queen() {
    // White rook a1 against black queen a8 on an open file.
    let board = Board::empty()
        .put(pos("a1"), Piece::new(PieceType::Rook, Player::White))
        .put(pos("a8"), Piece::new(PieceType::Queen, Player::Black))
        .put(pos("h1"), Piece::new(PieceType::King, Player::White))
        .put(pos("h8"), Piece::new(PieceType::King, Player::Black));
    let game = Game::from_board_with_castle(board, Player::White, false, false, false, false);

    let (best, _) = select_move(&game, 2);

    let chosen = best.expect("capturing moves exist");
    assert_eq!(chosen.from, pos("a1"));
    assert_eq!(chosen.to, pos("a8"));
}
