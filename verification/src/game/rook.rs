//! Rook moves: full rays along the four orthogonal directions.

use vstd::prelude::*;

use crate::board::{Player, Position};
use crate::game::{Game, Move};
use crate::game::move_list::{dirs_int, generate_moves, spec_dirs_moves};

verus! {

pub open spec fn rook_dirs() -> Seq<(int, int)> {
    seq![(0, 1), (1, 0), (0, -1), (-1, 0)]
}

/// The pseudo-legal rook moves from `position`.
pub open spec fn spec_rook_moves(g: Game, position: Position, player: Player) -> Seq<Move> {
    spec_dirs_moves(g, player, position, rook_dirs(), 4, 7)
}

pub fn list_rook_moves(game: &Game, position: Position, player: Player) -> (r: Vec<Move>)
    requires
        game.wf(),
        position.wf(),
    ensures
        r@ == spec_rook_moves(*game, position, player),
{
    let mut dirs: Vec<(i8, i8)> = Vec::new();
    dirs.push((0, 1));
    dirs.push((1, 0));
    dirs.push((0, -1));
    dirs.push((-1, 0));
    let r = generate_moves(game, player, position, dirs.as_slice());
    proof {
        assert(dirs_int(dirs@) =~= rook_dirs());
    }
    r
}

} // verus!
