//! Minimax search with alpha-beta pruning over a material-and-mobility
//! evaluation. White maximizes and Black minimizes a fixed sign
//! convention; the pruned search returns exactly the minimax score of the
//! depth-limited game tree, together with a move achieving it.

use vstd::prelude::*;

use crate::board::{Piece, PieceType, Player, Position};
use crate::game::{
    Game, Move, spec_new_game, spec_list_moves, spec_is_stalemate, spec_is_mate,
    lemma_list_moves_member, lemma_list_moves_len,
};

verus! {

/// The evaluation granted to a delivered mate, and the weight of a king.
pub const MATE_SCORE: i32 = 20000;

/// A bound on every evaluation: 64 pieces of at most king weight plus the
/// scaled mobility difference stay well below this.
pub const SCORE_BOUND: i32 = 2000000;

/// The signed material weight of one piece: positive for White, negative
/// for Black.
pub open spec fn spec_score_piece(pc: Piece) -> int {
    let abs = match pc.piece_type {
        PieceType::King => 20000int,
        PieceType::Queen => 900int,
        PieceType::Rook => 500int,
        PieceType::Bishop => 300int,
        PieceType::Knight => 300int,
        PieceType::Pawn => 100int,
    };
    if pc.player == Player::White {
        abs
    } else {
        -abs
    }
}

fn score_piece(piece: Piece) -> (r: i32)
    ensures
        r as int == spec_score_piece(piece),
        -20000 <= r <= 20000,
{
    let abs: i32 = match piece.piece_type() {
        PieceType::King => 20000,
        PieceType::Queen => 900,
        PieceType::Rook => 500,
        PieceType::Bishop => 300,
        PieceType::Knight => 300,
        PieceType::Pawn => 100,
    };
    match piece.player() {
        Player::White => abs,
        Player::Black => -abs,
    }
}

/// The summed material weight of the first `n` pieces.
pub open spec fn sum_scores_upto(ps: Seq<Piece>, n: int) -> int
    decreases n,
{
    if n <= 0 {
        0
    } else {
        sum_scores_upto(ps, n - 1) + spec_score_piece(ps[n - 1])
    }
}

proof fn lemma_sum_scores_bound(ps: Seq<Piece>, n: int)
    requires
        0 <= n,
    ensures
        -(20000 * n) <= sum_scores_upto(ps, n) <= 20000 * n,
    decreases n,
{
    if n > 0 {
        lemma_sum_scores_bound(ps, n - 1);
    }
}

/// The scaled mobility difference: White's legal-move count minus
/// Black's, times ten.
pub open spec fn spec_score_moves(g: Game) -> int {
    (spec_list_moves(Game { player_turn: Player::White, ..g }).len() - spec_list_moves(
        Game { player_turn: Player::Black, ..g },
    ).len()) * 10
}

/// The material on the board, summed with sign.
pub open spec fn spec_material(g: Game) -> int {
    let ps = g.board.entries().map_values(|e: (Position, Piece)| e.1);
    sum_scores_upto(ps, ps.len() as int)
}

/// The static evaluation: 0 for stalemate, the signed mate score when the
/// side to move is mated, and otherwise material plus mobility.
pub open spec fn spec_score(g: Game) -> int {
    if spec_is_stalemate(g) {
        0
    } else if spec_is_mate(g) {
        if g.player_turn == Player::White {
            -(MATE_SCORE as int)
        } else {
            MATE_SCORE as int
        }
    } else {
        spec_material(g) + spec_score_moves(g)
    }
}

pub proof fn lemma_score_bounds(g: Game)
    ensures
        -(SCORE_BOUND as int) < spec_score(g) < SCORE_BOUND as int,
{
    let ps = g.board.entries().map_values(|e: (Position, Piece)| e.1);
    g.board.lemma_entries_len(64);
    lemma_sum_scores_bound(ps, ps.len() as int);
    lemma_list_moves_len(Game { player_turn: Player::White, ..g });
    lemma_list_moves_len(Game { player_turn: Player::Black, ..g });
}

fn score_moves(game: &Game) -> (r: i32)
    requires
        game.wf(),
    ensures
        r as int == spec_score_moves(*game),
{
    let white_game = Game { player_turn: Player::White, ..*game };
    let black_game = Game { player_turn: Player::Black, ..*game };
    proof {
        lemma_list_moves_len(white_game);
        lemma_list_moves_len(black_game);
    }
    let white_moves = white_game.list_moves();
    let black_moves = black_game.list_moves();
    (white_moves.len() as i32 - black_moves.len() as i32) * 10
}

fn score_game(game: &Game) -> (r: i32)
    requires
        game.wf(),
    ensures
        r as int == spec_score(*game),
        -SCORE_BOUND < r < SCORE_BOUND,
{
    proof {
        lemma_score_bounds(*game);
    }
    if game.is_stalemate() {
        0
    } else if game.is_mate() {
        match game.turn() {
            Player::White => -MATE_SCORE,
            Player::Black => MATE_SCORE,
        }
    } else {
        let pieces = game.list_pieces();
        proof {
            game.board.lemma_entries_len(64);
            lemma_sum_scores_bound(pieces@, pieces@.len() as int);
        }
        let mut result: i32 = 0;
        let mut i: usize = 0;
        while i < pieces.len()
            invariant
                pieces@.len() <= 64,
                i <= pieces@.len(),
                result as int == sum_scores_upto(pieces@, i as int),
                -(20000 * i as int) <= result as int <= 20000 * i as int,
            decreases pieces@.len() - i,
        {
            proof {
                lemma_sum_scores_bound(pieces@, i as int + 1);
            }
            result = result + score_piece(pieces[i]);
            i = i + 1;
        }
        result + score_moves(game)
    }
}

/// A position with no legal moves and the king attacked is mate, and
/// evaluates to the mate score, signed against the side to move.
pub proof fn lemma_mate_score(g: Game)
    requires
        spec_list_moves(g).len() == 0,
        crate::game::spec_is_king_check(g),
    ensures
        spec_is_mate(g),
        spec_score(g) == (if g.player_turn == Player::White {
            -(MATE_SCORE as int)
        } else {
            MATE_SCORE as int
        }),
{
}

/// A position with no legal moves and the king unattacked is stalemate
/// and evaluates to zero.
pub proof fn lemma_stalemate_score(g: Game)
    requires
        spec_list_moves(g).len() == 0,
        !crate::game::spec_is_king_check(g),
    ensures
        spec_is_stalemate(g),
        spec_score(g) == 0,
{
}

/// The minimax score of `g` at the given depth: the static evaluation at
/// depth zero or when no legal move remains, and otherwise the best score
/// over the legal moves, each searched one ply shallower; White maximizes
/// and Black minimizes.
pub open spec fn spec_minimax(g: Game, depth: nat) -> int
    decreases depth, 0nat,
{
    let ms = spec_list_moves(g);
    if depth == 0 || ms.len() == 0 {
        spec_score(g)
    } else {
        spec_best(g, ms, (depth - 1) as nat)
    }
}

/// The best score among the moves of `ms` applied to `g`, searched at the
/// given depth: the maximum for White, the minimum for Black.
pub open spec fn spec_best(g: Game, ms: Seq<Move>, depth: nat) -> int
    decreases depth, ms.len(),
{
    if ms.len() == 0 {
        spec_score(g)
    } else {
        let s = spec_minimax(spec_new_game(g, ms[0]), depth);
        if ms.len() == 1 {
            s
        } else {
            let rest = spec_best(g, ms.skip(1), depth);
            if g.player_turn == Player::Black {
                vstd::math::min(s, rest)
            } else {
                vstd::math::max(s, rest)
            }
        }
    }
}

pub proof fn lemma_minimax_bounds(g: Game, depth: nat)
    ensures
        -(SCORE_BOUND as int) < spec_minimax(g, depth) < SCORE_BOUND as int,
    decreases depth, 0nat,
{
    let ms = spec_list_moves(g);
    if depth == 0 || ms.len() == 0 {
        lemma_score_bounds(g);
    } else {
        lemma_best_bounds(g, ms, (depth - 1) as nat);
    }
}

proof fn lemma_best_bounds(g: Game, ms: Seq<Move>, depth: nat)
    ensures
        -(SCORE_BOUND as int) < spec_best(g, ms, depth) < SCORE_BOUND as int,
    decreases depth, ms.len(),
{
    if ms.len() == 0 {
        lemma_score_bounds(g);
    } else {
        lemma_minimax_bounds(spec_new_game(g, ms[0]), depth);
        if ms.len() > 1 {
            lemma_best_bounds(g, ms.skip(1), depth);
        }
    }
}

/// The searched depth: depths at or below zero search nothing.
pub open spec fn depth_nat(depth: i32) -> nat {
    if depth <= 0 {
        0
    } else {
        depth as nat
    }
}

/// Alpha-beta search. The result is fail-hard: it equals the true minimax
/// score clamped into the window, and whenever a move is returned it is a
/// legal move whose one-ply-deeper minimax score equals the returned
/// score.
fn alpha_beta(game: &Game, alpha: i32, beta: i32, depth: i32) -> (r: (Option<Move>, i32))
    requires
        game.wf(),
        alpha < beta,
    ensures
        spec_minimax(*game, depth_nat(depth)) <= alpha ==> r.1 <= alpha,
        spec_minimax(*game, depth_nat(depth)) >= beta ==> r.1 >= beta,
        alpha < spec_minimax(*game, depth_nat(depth)) < beta ==> r.1 == spec_minimax(
            *game,
            depth_nat(depth),
        ),
        r.0 matches Some(m) ==> spec_list_moves(*game).contains(m) && alpha < r.1 < beta && depth
            >= 1 && spec_minimax(spec_new_game(*game, m), (depth - 1) as nat) == r.1,
        (depth >= 1 && spec_list_moves(*game).len() > 0 && alpha < spec_minimax(
            *game,
            depth_nat(depth),
        ) < beta) ==> r.0 is Some,
    decreases depth,
{
    if depth <= 0 {
        return (None, score_game(game));
    }
    let candidates = game.list_moves();
    if candidates.len() == 0 {
        return (None, score_game(game));
    }
    let ghost ms = spec_list_moves(*game);
    let ghost d = (depth - 1) as nat;
    let ghost mm = spec_minimax(*game, depth_nat(depth));
    proof {
        assert(mm == spec_best(*game, ms, d));
        assert(ms.skip(0) =~= ms);
    }
    if game.turn() == Player::Black {
        let mut b = beta;
        let mut m: Option<Move> = None;
        let mut i: usize = 0;
        while i < candidates.len()
            invariant
                game.wf(),
                game.player_turn == Player::Black,
                depth >= 1,
                d == (depth - 1) as nat,
                candidates@ == ms,
                ms == spec_list_moves(*game),
                ms.len() > 0,
                mm == spec_best(*game, ms, d),
                i <= ms.len(),
                alpha < b <= beta,
                i < ms.len() ==> vstd::math::min(
                    b as int,
                    vstd::math::max(alpha as int, spec_best(*game, ms.skip(i as int), d)),
                ) == vstd::math::min(beta as int, vstd::math::max(alpha as int, mm)),
                i == ms.len() ==> b as int == vstd::math::min(
                    beta as int,
                    vstd::math::max(alpha as int, mm),
                ),
                m matches Some(mv) ==> ms.contains(mv) && alpha < b < beta && spec_minimax(
                    spec_new_game(*game, mv),
                    d,
                ) == b,
                m is None ==> b == beta,
            decreases ms.len() - i,
        {
            let candidate = candidates[i];
            proof {
                assert(ms.contains(candidate));
                lemma_list_moves_member(*game, candidate);
            }
            let child = candidate.new_game(game);
            let (_, result) = alpha_beta(&child, alpha, b, depth - 1);
            let ghost mmi = spec_minimax(spec_new_game(*game, candidate), d);
            let ghost suffix = ms.skip(i as int);
            proof {
                assert(suffix[0] == ms[i as int]);
                assert(suffix.skip(1) =~= ms.skip(i as int + 1));
                assert(spec_best(*game, suffix, d) == (if suffix.len() == 1 {
                    mmi
                } else {
                    vstd::math::min(mmi, spec_best(*game, ms.skip(i as int + 1), d))
                }));
            }
            if result <= alpha {
                proof {
                    assert(mmi <= alpha);
                    assert(vstd::math::max(alpha as int, spec_best(*game, suffix, d))
                        == alpha as int);
                    assert(vstd::math::min(beta as int, vstd::math::max(alpha as int, mm))
                        == alpha as int);
                    assert(mm <= alpha);
                }
                return (None, alpha);
            }
            proof {
                assert(mmi > alpha);
            }
            if result < b {
                b = result;
                m = Some(candidate);
            }
            i = i + 1;
        }
        (m, b)
    } else {
        let mut a = alpha;
        let mut m: Option<Move> = None;
        let mut i: usize = 0;
        while i < candidates.len()
            invariant
                game.wf(),
                game.player_turn != Player::Black,
                depth >= 1,
                d == (depth - 1) as nat,
                candidates@ == ms,
                ms == spec_list_moves(*game),
                ms.len() > 0,
                mm == spec_best(*game, ms, d),
                i <= ms.len(),
                alpha <= a < beta,
                i < ms.len() ==> vstd::math::max(
                    a as int,
                    vstd::math::min(beta as int, spec_best(*game, ms.skip(i as int), d)),
                ) == vstd::math::max(alpha as int, vstd::math::min(beta as int, mm)),
                i == ms.len() ==> a as int == vstd::math::max(
                    alpha as int,
                    vstd::math::min(beta as int, mm),
                ),
                m matches Some(mv) ==> ms.contains(mv) && alpha < a < beta && spec_minimax(
                    spec_new_game(*game, mv),
                    d,
                ) == a,
                m is None ==> a == alpha,
            decreases ms.len() - i,
        {
            let candidate = candidates[i];
            proof {
                assert(ms.contains(candidate));
                lemma_list_moves_member(*game, candidate);
            }
            let child = candidate.new_game(game);
            let (_, result) = alpha_beta(&child, a, beta, depth - 1);
            let ghost mmi = spec_minimax(spec_new_game(*game, candidate), d);
            let ghost suffix = ms.skip(i as int);
            proof {
                assert(suffix[0] == ms[i as int]);
                assert(suffix.skip(1) =~= ms.skip(i as int + 1));
                assert(spec_best(*game, suffix, d) == (if suffix.len() == 1 {
                    mmi
                } else {
                    vstd::math::max(mmi, spec_best(*game, ms.skip(i as int + 1), d))
                }));
            }
            if result >= beta {
                proof {
                    assert(mmi >= beta);
                    assert(vstd::math::min(beta as int, spec_best(*game, suffix, d))
                        == beta as int);
                    assert(vstd::math::max(alpha as int, vstd::math::min(beta as int, mm))
                        == beta as int);
                    assert(mm >= beta);
                }
                return (None, beta);
            }
            proof {
                assert(mmi < beta);
            }
            if result > a {
                a = result;
                m = Some(candidate);
            }
            i = i + 1;
        }
        (m, a)
    }
}

/// Searches `depth` plies ahead and returns the best move with its score:
/// exactly the minimax value of the depth-limited tree, together with a
/// legal move achieving it whenever one exists.
pub fn select_move(game: &Game, depth: i32) -> (r: (Option<Move>, i32))
    requires
        game.wf(),
    ensures
        r.1 as int == spec_minimax(*game, depth_nat(depth)),
        r.0 matches Some(m) ==> spec_list_moves(*game).contains(m) && depth >= 1 && spec_minimax(
            spec_new_game(*game, m),
            (depth - 1) as nat,
        ) == r.1,
        (depth >= 1 && spec_list_moves(*game).len() > 0) ==> r.0 is Some,
        (depth <= 0 || spec_list_moves(*game).len() == 0) ==> r.0 is None && r.1 as int
            == spec_score(*game),
{
    proof {
        lemma_minimax_bounds(*game, depth_nat(depth));
    }
    alpha_beta(game, i32::MIN, i32::MAX, depth)
}

} // verus!
