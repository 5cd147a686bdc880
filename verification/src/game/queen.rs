//! Queen moves: full rays along all eight directions.

use vstd::prelude::*;

use crate::board::{Player, Position};
use crate::game::{Game, Move};
use crate::game::move_list::{dirs_int, generate_moves, spec_dirs_moves};

verus! {

pub open spec fn queen_dirs() -> Seq<(int, int)> {
    seq![(0, 1), (1, 0), (0, -1), (-1, 0), (1, 1), (-1, 1), (1, -1), (-1, -1)]
}

/// The pseudo-legal queen moves from `position`.
pub open spec fn spec_queen_moves(g: Game, position: Position, player: Player) -> Seq<Move> {
    spec_dirs_moves(g, player, position, queen_dirs(), 8, 7)
}

pub fn list_queen_moves(game: &Game, position: Position, player: Player) -> (r: Vec<Move>)
    requires
        game.wf(),
        position.wf(),
    ensures
        r@ == spec_queen_moves(*game, position, player),
{
    let mut dirs: Vec<(i8, i8)> = Vec::new();
    dirs.push((0, 1));
    dirs.push((1, 0));
    dirs.push((0, -1));
    dirs.push((-1, 0));
    dirs.push((1, 1));
    dirs.push((-1, 1));
    dirs.push((1, -1));
    dirs.push((-1, -1));
    let r = generate_moves(game, player, position, dirs.as_slice());
    proof {
        assert(dirs_int(dirs@) =~= queen_dirs());
    }
    r
}

} // verus!
