//! King moves: the eight unit offsets, one step each, plus castling.

use vstd::prelude::*;

use crate::board::{Player, Position, COL_B, COL_C, COL_D, COL_E, COL_F, COL_G, ROW_1, ROW_8};
use crate::game::{Game, Move, spec_is_check};
use crate::game::move_list::{dirs_int, generate_moves_one_square, simple_move, spec_dirs_moves};

verus! {

pub open spec fn king_dirs() -> Seq<(int, int)> {
    seq![(0, 1), (1, 0), (1, 1), (1, -1), (0, -1), (-1, -1), (-1, 0), (-1, 1)]
}

/// The pseudo-legal single-square king moves from `position`.
pub open spec fn spec_king_moves(g: Game, position: Position, player: Player) -> Seq<Move> {
    spec_dirs_moves(g, player, position, king_dirs(), 8, 1)
}

pub fn list_king_moves(game: &Game, position: Position, player: Player) -> (r: Vec<Move>)
    requires
        game.wf(),
        position.wf(),
    ensures
        r@ == spec_king_moves(*game, position, player),
{
    let mut dirs: Vec<(i8, i8)> = Vec::new();
    dirs.push((0, 1));
    dirs.push((1, 0));
    dirs.push((1, 1));
    dirs.push((1, -1));
    dirs.push((0, -1));
    dirs.push((-1, -1));
    dirs.push((-1, 0));
    dirs.push((-1, 1));
    let r = generate_moves_one_square(game, player, position, dirs.as_slice());
    proof {
        assert(dirs_int(dirs@) =~= king_dirs());
    }
    r
}

/// The castling moves of `player`'s king on `position`: the king stands on
/// its home square, the matching right is still held, every square
/// strictly between king and rook is empty, and neither the king's square
/// nor the square it crosses is attacked. The destination is the king's
/// post-castle square; the rook is relocated when the move is applied.
pub open spec fn spec_castle_moves(g: Game, position: Position, player: Player) -> Seq<Move> {
    let row = if player == Player::White {
        ROW_1
    } else {
        ROW_8
    };
    let rights = if player == Player::White {
        g.castle_white
    } else {
        g.castle_black
    };
    let pe = Position { column: COL_E, row };
    let pf = Position { column: COL_F, row };
    let pg = Position { column: COL_G, row };
    let pd = Position { column: COL_D, row };
    let pc = Position { column: COL_C, row };
    let pb = Position { column: COL_B, row };
    let kingside = position == pe && rights.1 && g.board.at(pg) is None && g.board.at(pf) is None
        && !spec_is_check(g, pf) && !spec_is_check(g, pe);
    let queenside = position == pe && rights.0 && g.board.at(pd) is None && g.board.at(pc) is None
        && g.board.at(pb) is None && !spec_is_check(g, pd) && !spec_is_check(g, pe);
    (if kingside {
        seq![simple_move(position, pg)]
    } else {
        Seq::<Move>::empty()
    }) + (if queenside {
        seq![simple_move(position, pc)]
    } else {
        Seq::<Move>::empty()
    })
}

pub fn list_castle_moves(game: &Game, position: Position, player: Player) -> (r: Vec<Move>)
    requires
        game.wf(),
        position.wf(),
        player == game.player_turn,
    ensures
        r@ == spec_castle_moves(*game, position, player),
{
    let row = if player == Player::White {
        ROW_1
    } else {
        ROW_8
    };
    let rights = if player == Player::White {
        game.castle_white
    } else {
        game.castle_black
    };
    let pe = Position { column: COL_E, row };
    let pf = Position { column: COL_F, row };
    let pg = Position { column: COL_G, row };
    let pd = Position { column: COL_D, row };
    let pc = Position { column: COL_C, row };
    let pb = Position { column: COL_B, row };
    let mut r: Vec<Move> = Vec::new();
    if position == pe && rights.1 && game.get_piece_at(pg).is_none()
        && game.get_piece_at(pf).is_none() && !game.is_check(pf) && !game.is_check(pe) {
        r.push(Move::new(position, pg));
    }
    if position == pe && rights.0 && game.get_piece_at(pd).is_none()
        && game.get_piece_at(pc).is_none() && game.get_piece_at(pb).is_none() && !game.is_check(pd)
        && !game.is_check(pe) {
        r.push(Move::new(position, pc));
    }
    proof {
        assert(r@ =~= spec_castle_moves(*game, position, player));
    }
    r
}

/// Every castling move starts on `position` and is well formed.
pub proof fn lemma_castle_moves_applicable(g: Game, position: Position, player: Player)
    ensures
        forall|i: int|
            0 <= i < spec_castle_moves(g, position, player).len() ==> (
            #[trigger] spec_castle_moves(g, position, player)[i]).from == position
                && spec_castle_moves(g, position, player)[i].wf(),
{
}

} // verus!
