//! Bishop moves: full rays along the four diagonal directions.

use vstd::prelude::*;

use crate::board::{Player, Position};
use crate::game::{Game, Move};
use crate::game::move_list::{dirs_int, generate_moves, spec_dirs_moves};

verus! {

pub open spec fn bishop_dirs() -> Seq<(int, int)> {
    seq![(1, 1), (-1, 1), (1, -1), (-1, -1)]
}

/// The pseudo-legal bishop moves from `position`.
pub open spec fn spec_bishop_moves(g: Game, position: Position, player: Player) -> Seq<Move> {
    spec_dirs_moves(g, player, position, bishop_dirs(), 4, 7)
}

pub fn list_bishop_moves(game: &Game, position: Position, player: Player) -> (r: Vec<Move>)
    requires
        game.wf(),
        position.wf(),
    ensures
        r@ == spec_bishop_moves(*game, position, player),
{
    let mut dirs: Vec<(i8, i8)> = Vec::new();
    dirs.push((1, 1));
    dirs.push((-1, 1));
    dirs.push((1, -1));
    dirs.push((-1, -1));
    let r = generate_moves(game, player, position, dirs.as_slice());
    proof {
        assert(dirs_int(dirs@) =~= bishop_dirs());
    }
    r
}

} // verus!
