//! Knight moves: the eight fixed offsets, one step each.

use vstd::prelude::*;

use crate::board::{Player, Position};
use crate::game::{Game, Move};
use crate::game::move_list::{dirs_int, generate_moves_one_square, spec_dirs_moves};

verus! {

pub open spec fn knight_dirs() -> Seq<(int, int)> {
    seq![(1, 2), (2, 1), (1, -2), (2, -1), (-1, -2), (-2, -1), (-1, 2), (-2, 1)]
}

/// The pseudo-legal knight moves from `position`.
pub open spec fn spec_knight_moves(g: Game, position: Position, player: Player) -> Seq<Move> {
    spec_dirs_moves(g, player, position, knight_dirs(), 8, 1)
}

pub fn list_knight_moves(game: &Game, position: Position, player: Player) -> (r: Vec<Move>)
    requires
        game.wf(),
        position.wf(),
    ensures
        r@ == spec_knight_moves(*game, position, player),
{
    let mut dirs: Vec<(i8, i8)> = Vec::new();
    dirs.push((1, 2));
    dirs.push((2, 1));
    dirs.push((1, -2));
    dirs.push((2, -1));
    dirs.push((-1, -2));
    dirs.push((-2, -1));
    dirs.push((-1, 2));
    dirs.push((-2, 1));
    let r = generate_moves_one_square(game, player, position, dirs.as_slice());
    proof {
        assert(dirs_int(dirs@) =~= knight_dirs());
    }
    r
}

} // verus!
