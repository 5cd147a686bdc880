use woodpusher::board::{Board, Piece, Position};
use woodpusher::board::PieceType::{Bishop, King, Knight, Pawn, Queen, Rook};
use woodpusher::board::Player::{Black, White};

#[test]
fn new_board() {
    // When
    let result = Board::starting_position();

    // Then
    assert_eq!(
        result.get(Position::from("e1").unwrap()),
        Some(Piece { piece_type: King, player: White })
    );
    assert_eq!(
        result.get(Position::from("e8").unwrap()),
        Some(Piece { piece_type: King, player: Black })
    );
    assert_eq!(
        result.get(Position::from("d1").unwrap()),
        Some(Piece { piece_type: Queen, player: White })
    );
    assert_eq!(
        result.get(Position::from("d8").unwrap()),
        Some(Piece { piece_type: Queen, player: Black })
    );
    assert_eq!(
        result.get(Position::from("c1").unwrap()),
        Some(Piece { piece_type: Bishop, player: White })
    );
    assert_eq!(
        result.get(Position::from("c8").unwrap()),
        Some(Piece { piece_type: Bishop, player: Black })
    );
    assert_eq!(
        result.get(Position::from("f1").unwrap()),
        Some(Piece { piece_type: Bishop, player: White })
    );
    assert_eq!(
        result.get(Position::from("f8").unwrap()),
        Some(Piece { piece_type: Bishop, player: Black })
    );
    assert_eq!(
        result.get(Position::from("b1").unwrap()),
        Some(Piece { piece_type: Knight, player: White })
    );
    assert_eq!(
        result.get(Position::from("b8").unwrap()),
        Some(Piece { piece_type: Knight, player: Black })
    );
    assert_eq!(
        result.get(Position::from("g1").unwrap()),
        Some(Piece { piece_type: Knight, player: White })
    );
    assert_eq!(
        result.get(Position::from("g8").unwrap()),
        Some(Piece { piece_type: Knight, player: Black })
    );
    assert_eq!(
        result.get(Position::from("a1").unwrap()),
        Some(Piece { piece_type: Rook, player: White })
    );
    assert_eq!(
        result.get(Position::from("a8").unwrap()),
        Some(Piece { piece_type: Rook, player: Black })
    );
    assert_eq!(
        result.get(Position::from("h1").unwrap()),
        Some(Piece { piece_type: Rook, player: White })
    );
    assert_eq!(
        result.get(Position::from("h8").unwrap()),
        Some(Piece { piece_type: Rook, player: Black })
    );
    for c in "abcdefgh".chars() {
        assert_eq!(
            result.get(Position::from(&format!("{}2", c)).unwrap()),
            Some(Piece { piece_type: Pawn, player: White })
        );
        assert_eq!(
            result.get(Position::from(&format!("{}7", c)).unwrap()),
            Some(Piece { piece_type: Pawn, player: Black })
        );
    }
}

#[test]
fn empty_pos() {
    // Given
    let pos = "";

    // When
    let result = Position::from(pos);

    // Then
    assert_eq!(result, None);
}

#[test]
fn ok_pos() {
    // Given
    let pos = "a1";

    // When
    let result = Position::from(pos);

    // Then
    assert_eq!(result.unwrap().text(), "a1");
}

#[test]
fn invalid_pos() {
    // Given
    let pos = "~|";

    // When
    let result = Position::from(pos);

    // Then
    assert_eq!(result, None);
}

#[test]
fn put_then_get() {
    let p = Position::from("d4").unwrap();
    let q = Position::from("e5").unwrap();
    let rook = Piece::new(Rook, White);
    let pawn = Piece::new(Pawn, Black);
    let board = Board::empty().put(q, pawn);

    let updated = board.put(p, rook);

    assert_eq!(updated.get(p), Some(rook));
    assert_eq!(updated.get(q), Some(pawn));
    assert_eq!(board.get(p), None);
}

#[test]
fn remove_then_get() {
    let p = Position::from("d4").unwrap();
    let q = Position::from("e5").unwrap();
    let rook = Piece::new(Rook, White);
    let pawn = Piece::new(Pawn, Black);
    let board = Board::empty().put(p, rook).put(q, pawn);

    let updated = board.remove(p);

    assert_eq!(updated.get(p), None);
    assert_eq!(updated.get(q), Some(pawn));
    assert_eq!(board.get(p), Some(rook));
}

#[test]
fn put_overwrites() {
    let p = Position::from("d4").unwrap();
    let board = Board::empty().put(p, Piece::new(Rook, White));

    let updated = board.put(p, Piece::new(Queen, Black));

    assert_eq!(updated.get(p), Some(Piece::new(Queen, Black)));
}

#[test]
fn remove_absent_is_noop() {
    let p = Position::from("d4").unwrap();
    let board = Board::empty();

    let updated = board.remove(p);

    assert_eq!(updated.get(p), None);
}

#[test]
fn iter_lists_occupied_squares() {
    let p = Position::from("a1").unwrap();
    let q = Position::from("h8").unwrap();
    let board = Board::empty().put(p, Piece::new(Rook, White)).put(q, Piece::new(King, Black));

    let entries = board.iter();

    assert_eq!(entries.len(), 2);
    assert!(entries.contains(&(p, Piece::new(Rook, White))));
    assert!(entries.contains(&(q, Piece::new(King, Black))));
}

#[test]
fn from_chars_bounds() {
    assert!(Position::from_chars('a', '1').is_some());
    assert!(Position::from_chars('h', '8').is_some());
    assert!(Position::from_chars('i', '1').is_none());
    assert!(Position::from_chars('a', '9').is_none());
    assert!(Position::from_chars('`', '5').is_none());
    assert!(Position::from_chars('\u{161}', '1').is_none());
}

#[test]
fn from_u8_bounds() {
    assert_eq!(Position::from_u8(b'e', b'2'), Position::from("e2"));
    assert!(Position::from_u8(b'e', b'0').is_none());
    assert!(Position::from_u8(b'z', b'2').is_none());
}
