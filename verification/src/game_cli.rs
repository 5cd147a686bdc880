//! Board rendering: one glyph per piece, ranks 8 down to 1, files a to h,
//! squares space-separated, rows newline-terminated, empty squares drawn
//! with a middle dot.

use vstd::prelude::*;

use crate::board::{Board, Piece, PieceType, Player, Position, COL_A, ROW_1};

verus! {

/// The glyph of a piece.
pub open spec fn spec_glyph(pc: Piece) -> char {
    match (pc.piece_type, pc.player) {
        (PieceType::Rook, Player::Black) => '\u{265c}',
        (PieceType::Knight, Player::Black) => '\u{265e}',
        (PieceType::Bishop, Player::Black) => '\u{265d}',
        (PieceType::Queen, Player::Black) => '\u{265b}',
        (PieceType::King, Player::Black) => '\u{265a}',
        (PieceType::Pawn, Player::Black) => '\u{265f}',
        (PieceType::Rook, Player::White) => '\u{2656}',
        (PieceType::Knight, Player::White) => '\u{2658}',
        (PieceType::Bishop, Player::White) => '\u{2657}',
        (PieceType::Queen, Player::White) => '\u{2655}',
        (PieceType::King, Player::White) => '\u{2654}',
        (PieceType::Pawn, Player::White) => '\u{2659}',
    }
}

pub fn show_piece(piece: &Piece) -> (r: char)
    ensures
        r == spec_glyph(*piece),
{
    match (piece.piece_type(), piece.player()) {
        (PieceType::Rook, Player::Black) => '\u{265c}',
        (PieceType::Knight, Player::Black) => '\u{265e}',
        (PieceType::Bishop, Player::Black) => '\u{265d}',
        (PieceType::Queen, Player::Black) => '\u{265b}',
        (PieceType::King, Player::Black) => '\u{265a}',
        (PieceType::Pawn, Player::Black) => '\u{265f}',
        (PieceType::Rook, Player::White) => '\u{2656}',
        (PieceType::Knight, Player::White) => '\u{2658}',
        (PieceType::Bishop, Player::White) => '\u{2657}',
        (PieceType::Queen, Player::White) => '\u{2655}',
        (PieceType::King, Player::White) => '\u{2654}',
        (PieceType::Pawn, Player::White) => '\u{2659}',
    }
}

fn glyph_str(piece: &Piece) -> (r: &'static str)
    ensures
        r@ == seq![spec_glyph(*piece)],
{
    proof {
        reveal_strlit("\u{265c}");
        reveal_strlit("\u{265e}");
        reveal_strlit("\u{265d}");
        reveal_strlit("\u{265b}");
        reveal_strlit("\u{265a}");
        reveal_strlit("\u{265f}");
        reveal_strlit("\u{2656}");
        reveal_strlit("\u{2658}");
        reveal_strlit("\u{2657}");
        reveal_strlit("\u{2655}");
        reveal_strlit("\u{2654}");
        reveal_strlit("\u{2659}");
    }
    match (piece.piece_type(), piece.player()) {
        (PieceType::Rook, Player::Black) => "\u{265c}",
        (PieceType::Knight, Player::Black) => "\u{265e}",
        (PieceType::Bishop, Player::Black) => "\u{265d}",
        (PieceType::Queen, Player::Black) => "\u{265b}",
        (PieceType::King, Player::Black) => "\u{265a}",
        (PieceType::Pawn, Player::Black) => "\u{265f}",
        (PieceType::Rook, Player::White) => "\u{2656}",
        (PieceType::Knight, Player::White) => "\u{2658}",
        (PieceType::Bishop, Player::White) => "\u{2657}",
        (PieceType::Queen, Player::White) => "\u{2655}",
        (PieceType::King, Player::White) => "\u{2654}",
        (PieceType::Pawn, Player::White) => "\u{2659}",
    }
}

/// The square on file `cc` (0 for a) and rank `rr` (0 for rank 1).
pub open spec fn grid_pos(cc: int, rr: int) -> Position {
    Position { column: (COL_A + cc) as u8, row: (ROW_1 + rr) as u8 }
}

/// One drawn square: the piece's glyph or a middle dot.
pub open spec fn spec_square_char(b: Board, rr: int, cc: int) -> char {
    match b.at(grid_pos(cc, rr)) {
        Some(pc) => spec_glyph(pc),
        None => '\u{b7}',
    }
}

/// The drawn rank `rr` from file `cc` on: squares separated by spaces,
/// closed by a newline.
pub open spec fn spec_row_chars(b: Board, rr: int, cc: int) -> Seq<char>
    decreases 8 - cc,
{
    if cc < 0 || cc >= 8 {
        Seq::empty()
    } else {
        seq![spec_square_char(b, rr, cc)] + seq![if cc == 7 {
            '\n'
        } else {
            ' '
        }] + spec_row_chars(b, rr, cc + 1)
    }
}

/// The drawn ranks from `rr` down to rank 1.
pub open spec fn spec_rows(b: Board, rr: int) -> Seq<char>
    decreases rr + 1,
{
    if rr < 0 {
        Seq::empty()
    } else {
        spec_row_chars(b, rr, 0) + spec_rows(b, rr - 1)
    }
}

/// The whole board, rank 8 down to rank 1.
pub open spec fn spec_render(b: Board) -> Seq<char> {
    spec_rows(b, 7)
}

/// Draws the board as [`spec_render`] says.
pub fn show_board(board: &Board) -> (r: String)
    ensures
        r@ == spec_render(*board),
{
    let mut result = String::new();
    let mut li: u8 = 0;
    while li < 8
        invariant
            li <= 8,
            result@ + spec_rows(*board, 7 - li as int) == spec_render(*board),
        decreases 8 - li,
    {
        let rr: u8 = 7 - li;
        let mut cc: u8 = 0;
        while cc < 8
            invariant
                li < 8,
                rr == 7 - li,
                cc <= 8,
                result@ + spec_row_chars(*board, rr as int, cc as int) + spec_rows(
                    *board,
                    rr as int - 1,
                ) == spec_render(*board),
            decreases 8 - cc,
        {
            let p = Position { column: COL_A + cc, row: ROW_1 + rr };
            proof {
                assert(p == grid_pos(cc as int, rr as int));
            }
            match board.get(p) {
                Some(pc) => {
                    result.append(glyph_str(&pc));
                },
                None => {
                    proof {
                        reveal_strlit("\u{b7}");
                    }
                    result.append("\u{b7}");
                },
            }
            if cc == 7 {
                proof {
                    reveal_strlit("\n");
                }
                result.append("\n");
            } else {
                proof {
                    reveal_strlit(" ");
                }
                result.append(" ");
            }
            cc = cc + 1;
            proof {
                assert(result@ + spec_row_chars(*board, rr as int, cc as int) + spec_rows(
                    *board,
                    rr as int - 1,
                ) =~= spec_render(*board));
            }
        }
        li = li + 1;
        proof {
            assert(result@ + spec_rows(*board, 7 - li as int) =~= spec_render(*board));
        }
    }
    proof {
        assert(result@ =~= spec_render(*board));
    }
    result
}

} // verus!
