//! Pawn moves: one square forward onto an empty square, two from the
//! starting rank over two empty squares (recording the skipped square as
//! the new en-passant target), diagonal captures onto enemy pieces or onto
//! the current en-passant target, and expansion of any move reaching the
//! farthest rank into the four promotion choices.

use vstd::prelude::*;

use crate::board::{PieceType, Player, Position, ROW_1, ROW_2, ROW_7, ROW_8};
use crate::game::{Game, Move};
use crate::game::move_list::{simple_move, step, step_checked, step_ok};

verus! {

/// The row direction a side's pawns advance in.
pub open spec fn pawn_dir(player: Player) -> int {
    if player == Player::White {
        1
    } else {
        -1
    }
}

/// Whether the square ahead of the pawn is off the board or empty.
pub open spec fn pawn_front_clear(g: Game, from: Position, player: Player) -> bool {
    !step_ok(from, 0, pawn_dir(player)) || g.board.at(step(from, 0, pawn_dir(player))) is None
}

/// Whether the pawn on `from` may double-advance: the square ahead is
/// clear, the pawn stands on its side's starting rank, and the square two
/// ahead is empty.
pub open spec fn pawn_can_jump(g: Game, from: Position, player: Player) -> bool {
    let d = pawn_dir(player);
    &&& pawn_front_clear(g, from, player)
    &&& ((g.player_turn == Player::White && from.row == ROW_2) || (g.player_turn == Player::Black
        && from.row == ROW_7))
    &&& g.board.at(step(step(from, 0, d), 0, d)) is None
}

/// Whether the pawn on `from` captures one file over (`dc` is -1 or 1):
/// the diagonal square is on the board and holds an enemy piece or is the
/// en-passant target.
pub open spec fn pawn_capture(g: Game, from: Position, player: Player, dc: int) -> bool {
    let d = pawn_dir(player);
    &&& step_ok(from, dc, d)
    &&& {
        let t = step(from, dc, d);
        (g.board.at(t) matches Some(pc) && pc.player == player.spec_opponent()) || g.en_passant
            == Some(t)
    }
}

/// The destination squares of the pawn on `from`: advances first, then
/// captures, the lower file first.
pub open spec fn pawn_targets(g: Game, from: Position, player: Player) -> Seq<Position> {
    let d = pawn_dir(player);
    let advances = if pawn_front_clear(g, from, player) {
        (if step_ok(from, 0, d) {
            seq![step(from, 0, d)]
        } else {
            Seq::<Position>::empty()
        }) + (if pawn_can_jump(g, from, player) {
            seq![step(step(from, 0, d), 0, d)]
        } else {
            Seq::<Position>::empty()
        })
    } else {
        Seq::<Position>::empty()
    };
    let captures = (if pawn_capture(g, from, player, -1) {
        seq![step(from, -1, d)]
    } else {
        Seq::<Position>::empty()
    }) + (if pawn_capture(g, from, player, 1) {
        seq![step(from, 1, d)]
    } else {
        Seq::<Position>::empty()
    });
    advances + captures
}

/// A move landing on the farthest rank becomes the four promotion
/// variants; elsewhere it is one plain move.
pub open spec fn promo_expand(from: Position, to: Position) -> Seq<Move> {
    if to.row == ROW_1 || to.row == ROW_8 {
        seq![
            Move { from, to, en_passant: None, promotion: Some(PieceType::Queen) },
            Move { from, to, en_passant: None, promotion: Some(PieceType::Rook) },
            Move { from, to, en_passant: None, promotion: Some(PieceType::Bishop) },
            Move { from, to, en_passant: None, promotion: Some(PieceType::Knight) },
        ]
    } else {
        seq![simple_move(from, to)]
    }
}

/// The moves made of the first `n` target squares: the double advance
/// carries the skipped square `inter` as en-passant target, every other
/// destination goes through [`promo_expand`].
pub open spec fn expand_upto(
    from: Position,
    ps: Seq<Position>,
    jump: Option<Position>,
    inter: Position,
    n: int,
) -> Seq<Move>
    decreases n,
{
    if n <= 0 {
        Seq::empty()
    } else {
        expand_upto(from, ps, jump, inter, n - 1) + (if Some(ps[n - 1]) == jump {
            seq![Move { from, to: ps[n - 1], en_passant: Some(inter), promotion: None }]
        } else {
            promo_expand(from, ps[n - 1])
        })
    }
}

/// The pseudo-legal pawn moves from `from`.
pub open spec fn spec_pawn_moves(g: Game, from: Position, player: Player) -> Seq<Move> {
    let d = pawn_dir(player);
    let ps = pawn_targets(g, from, player);
    let jump = if pawn_can_jump(g, from, player) {
        Some(step(step(from, 0, d), 0, d))
    } else {
        None
    };
    expand_upto(from, ps, jump, step(from, 0, d), ps.len() as int)
}

proof fn lemma_expand_upto_wf(
    from: Position,
    ps: Seq<Position>,
    jump: Option<Position>,
    inter: Position,
    n: int,
)
    requires
        from.wf(),
        n <= ps.len(),
        forall|i: int| 0 <= i < n ==> (#[trigger] ps[i]).wf(),
        jump is Some ==> inter.wf(),
    ensures
        forall|i: int|
            0 <= i < expand_upto(from, ps, jump, inter, n).len() ==> (#[trigger] expand_upto(
                from,
                ps,
                jump,
                inter,
                n,
            )[i]).from == from && expand_upto(from, ps, jump, inter, n)[i].wf(),
    decreases n,
{
    if n > 0 {
        lemma_expand_upto_wf(from, ps, jump, inter, n - 1);
    }
}

proof fn lemma_expand_upto_len(
    from: Position,
    ps: Seq<Position>,
    jump: Option<Position>,
    inter: Position,
    n: int,
)
    ensures
        expand_upto(from, ps, jump, inter, n).len() <= (if n <= 0 { 0 } else { 4 * n }),
    decreases n,
{
    if n > 0 {
        lemma_expand_upto_len(from, ps, jump, inter, n - 1);
    }
}

/// A pawn has at most four destination squares, hence at most sixteen
/// moves after promotion expansion.
pub proof fn lemma_pawn_moves_len(g: Game, from: Position, player: Player)
    ensures
        spec_pawn_moves(g, from, player).len() <= 16,
{
    let d = pawn_dir(player);
    let ps = pawn_targets(g, from, player);
    let jump = if pawn_can_jump(g, from, player) {
        Some(step(step(from, 0, d), 0, d))
    } else {
        None::<Position>
    };
    lemma_expand_upto_len(from, ps, jump, step(from, 0, d), ps.len() as int);
}

/// Every pawn move of the side to move starts on `from` and is well
/// formed.
pub proof fn lemma_pawn_moves_wf(g: Game, from: Position, player: Player)
    requires
        from.wf(),
        player == g.player_turn,
    ensures
        forall|i: int|
            0 <= i < spec_pawn_moves(g, from, player).len() ==> (#[trigger] spec_pawn_moves(
                g,
                from,
                player,
            )[i]).from == from && spec_pawn_moves(g, from, player)[i].wf(),
{
    let d = pawn_dir(player);
    let ps = pawn_targets(g, from, player);
    assert forall|i: int| 0 <= i < ps.len() implies (#[trigger] ps[i]).wf() by {
        if pawn_can_jump(g, from, player) {
            assert(step_ok(from, 0, d));
            assert(step_ok(step(from, 0, d), 0, d));
        }
    }
    let jump = if pawn_can_jump(g, from, player) {
        Some(step(step(from, 0, d), 0, d))
    } else {
        None::<Position>
    };
    if jump is Some {
        assert(step_ok(from, 0, d));
    }
    lemma_expand_upto_wf(from, ps, jump, step(from, 0, d), ps.len() as int);
}

pub fn list_pawn_moves(game: &Game, key: Position, player: Player) -> (r: Vec<Move>)
    requires
        game.wf(),
        key.wf(),
        player == game.player_turn,
    ensures
        r@ == spec_pawn_moves(*game, key, player),
{
    let d: i8 = match player {
        Player::White => 1,
        Player::Black => -1,
    };
    let simple = step_checked(key, 0, d);
    let mut positions: Vec<Position> = Vec::new();
    let mut jump_position: Option<Position> = None;
    let front_clear = match simple {
        Some(f1) => game.board.get(f1).is_none(),
        None => true,
    };
    if front_clear {
        match simple {
            Some(f1) => { positions.push(f1); },
            None => {},
        }
        if (game.turn() == Player::White && key.row == ROW_2) || (game.turn() == Player::Black
            && key.row == ROW_7) {
            let f1 = simple.unwrap();
            let f2 = step_checked(f1, 0, d).unwrap();
            if game.board.get(f2).is_none() {
                positions.push(f2);
                jump_position = Some(f2);
            }
        }
    }
    proof {
        assert(jump_position == (if pawn_can_jump(*game, key, player) {
            Some(step(step(key, 0, d as int), 0, d as int))
        } else {
            None::<Position>
        }));
    }
    let mut ci: i8 = -1;
    while ci <= 1
        invariant
            game.wf(),
            key.wf(),
            player == game.player_turn,
            -1 <= ci <= 3,
            ci == -1 || ci == 1 || ci == 3,
            d as int == pawn_dir(player),
            jump_position == (if pawn_can_jump(*game, key, player) {
                Some(step(step(key, 0, d as int), 0, d as int))
            } else {
                None::<Position>
            }),
            positions@ == {
                let advances = if pawn_front_clear(*game, key, player) {
                    (if step_ok(key, 0, d as int) {
                        seq![step(key, 0, d as int)]
                    } else {
                        Seq::<Position>::empty()
                    }) + (if pawn_can_jump(*game, key, player) {
                        seq![step(step(key, 0, d as int), 0, d as int)]
                    } else {
                        Seq::<Position>::empty()
                    })
                } else {
                    Seq::<Position>::empty()
                };
                advances + (if ci >= 1 && pawn_capture(*game, key, player, -1) {
                    seq![step(key, -1, d as int)]
                } else {
                    Seq::<Position>::empty()
                }) + (if ci >= 3 && pawn_capture(*game, key, player, 1) {
                    seq![step(key, 1, d as int)]
                } else {
                    Seq::<Position>::empty()
                })
            },
        decreases 3 - ci,
    {
        match step_checked(key, ci, d) {
            Some(t) => {
                let enemy = match game.board.get(t) {
                    Some(pc) => pc.player() == player.opponent(),
                    None => false,
                };
                let en_passant = match game.en_passant {
                    Some(e) => e == t,
                    None => false,
                };
                if enemy || en_passant {
                    positions.push(t);
                }
            },
            None => {},
        }
        ci = ci + 2;
    }
    proof {
        assert(positions@ =~= pawn_targets(*game, key, player));
    }
    let mut results: Vec<Move> = Vec::new();
    let mut i: usize = 0;
    while i < positions.len()
        invariant
            key.wf(),
            d as int == pawn_dir(player),
            positions@ == pawn_targets(*game, key, player),
            jump_position == (if pawn_can_jump(*game, key, player) {
                Some(step(step(key, 0, d as int), 0, d as int))
            } else {
                None::<Position>
            }),
            jump_position is Some ==> simple == Some(step(key, 0, d as int)),
            simple == (if step_ok(key, 0, d as int) {
                Some(step(key, 0, d as int))
            } else {
                None::<Position>
            }),
            i <= positions@.len(),
            results@ == expand_upto(
                key,
                positions@,
                jump_position,
                step(key, 0, d as int),
                i as int,
            ),
        decreases positions@.len() - i,
    {
        let to = positions[i];
        let is_jump = match jump_position {
            Some(j) => j == to,
            None => false,
        };
        if is_jump {
            results.push(Move {
                from: key,
                to,
                en_passant: Some(simple.unwrap()),
                promotion: None,
            });
        } else if to.row == ROW_1 || to.row == ROW_8 {
            results.push(Move::new_with_promotion(key, to, PieceType::Queen));
            results.push(Move::new_with_promotion(key, to, PieceType::Rook));
            results.push(Move::new_with_promotion(key, to, PieceType::Bishop));
            results.push(Move::new_with_promotion(key, to, PieceType::Knight));
        } else {
            results.push(Move::new(key, to));
        }
        i = i + 1;
        proof {
            assert(results@ =~= expand_upto(
                key,
                positions@,
                jump_position,
                step(key, 0, d as int),
                i as int,
            ));
        }
    }
    results
}

} // verus!
