//! The shared ray walker behind the sliding pieces (and, with a single
//! step, the knight and the king): walk each direction square by square,
//! collecting empty squares, stopping on the first occupied square and
//! collecting it only when it holds an enemy piece.

use vstd::prelude::*;

use crate::board::{Player, Position, COL_A, COL_H, ROW_1, ROW_8};
use crate::game::{Game, Move};

verus! {

/// A plain move descriptor with no en-passant or promotion payload.
pub open spec fn simple_move(from: Position, to: Position) -> Move {
    Move { from, to, en_passant: None, promotion: None }
}

/// Whether one step of `(dx, dy)` from `p` stays on the board.
pub open spec fn step_ok(p: Position, dx: int, dy: int) -> bool {
    COL_A <= p.column + dx <= COL_H && ROW_1 <= p.row + dy <= ROW_8
}

/// The square one step of `(dx, dy)` away from `p`.
pub open spec fn step(p: Position, dx: int, dy: int) -> Position
    recommends
        step_ok(p, dx, dy),
{
    Position { column: (p.column + dx) as u8, row: (p.row + dy) as u8 }
}

/// One step of `(dx, dy)` from `p`, or `None` off the board.
pub fn step_checked(p: Position, dx: i8, dy: i8) -> (r: Option<Position>)
    requires
        p.wf(),
    ensures
        r == (if step_ok(p, dx as int, dy as int) {
            Some(step(p, dx as int, dy as int))
        } else {
            None
        }),
        r is Some ==> r->0.wf(),
{
    let c = p.column as i32 + dx as i32;
    let w = p.row as i32 + dy as i32;
    if c >= COL_A as i32 && c <= COL_H as i32 && w >= ROW_1 as i32 && w <= ROW_8 as i32 {
        Some(Position { column: c as u8, row: w as u8 })
    } else {
        None
    }
}

/// The moves along one ray: from `cur`, up to `fuel` more steps of
/// `(dx, dy)`; an empty square is a destination and the walk goes on, an
/// enemy square is a destination and ends the walk, a friendly piece or the
/// board edge ends it at once.
pub open spec fn spec_ray_moves(
    g: Game,
    player: Player,
    start: Position,
    cur: Position,
    dx: int,
    dy: int,
    fuel: nat,
) -> Seq<Move>
    decreases fuel,
{
    if fuel == 0 || !step_ok(cur, dx, dy) {
        Seq::empty()
    } else {
        let next = step(cur, dx, dy);
        match g.board.at(next) {
            None => seq![simple_move(start, next)] + spec_ray_moves(
                g,
                player,
                start,
                next,
                dx,
                dy,
                (fuel - 1) as nat,
            ),
            Some(pc) => if pc.player == player.spec_opponent() {
                seq![simple_move(start, next)]
            } else {
                Seq::empty()
            },
        }
    }
}

/// How many unit steps of `(dx, dy)` fit on the board from `p` before the
/// walk leaves it.
pub open spec fn ray_room(p: Position, dx: int, dy: int) -> int {
    let col_room = if dx > 0 {
        COL_H - p.column
    } else if dx < 0 {
        p.column - COL_A
    } else {
        8
    };
    let row_room = if dy > 0 {
        ROW_8 - p.row
    } else if dy < 0 {
        p.row - ROW_1
    } else {
        8
    };
    vstd::math::min(col_room, row_room)
}

/// Along a unit direction, any fuel at or above the remaining room yields
/// the same ray: the walk reaches the board edge within that many steps,
/// so seven steps of fuel always suffice on an 8x8 board.
pub proof fn lemma_ray_moves_fuel(
    g: Game,
    player: Player,
    start: Position,
    cur: Position,
    dx: int,
    dy: int,
    f1: nat,
    f2: nat,
)
    requires
        cur.wf(),
        -1 <= dx <= 1,
        -1 <= dy <= 1,
        !(dx == 0 && dy == 0),
        f1 >= ray_room(cur, dx, dy),
        f2 >= ray_room(cur, dx, dy),
    ensures
        spec_ray_moves(g, player, start, cur, dx, dy, f1) == spec_ray_moves(
            g,
            player,
            start,
            cur,
            dx,
            dy,
            f2,
        ),
    decreases f1 + f2,
{
    if step_ok(cur, dx, dy) {
        assert(ray_room(cur, dx, dy) >= 1);
        let next = step(cur, dx, dy);
        match g.board.at(next) {
            None => {
                assert(ray_room(next, dx, dy) == ray_room(cur, dx, dy) - 1);
                lemma_ray_moves_fuel(
                    g,
                    player,
                    start,
                    next,
                    dx,
                    dy,
                    (f1 - 1) as nat,
                    (f2 - 1) as nat,
                );
            },
            Some(_) => {},
        }
    }
}

/// With unit directions, any fuel of at least seven yields the same rays.
pub proof fn lemma_dirs_moves_fuel(
    g: Game,
    player: Player,
    start: Position,
    dirs: Seq<(int, int)>,
    n: int,
    f1: nat,
    f2: nat,
)
    requires
        start.wf(),
        forall|j: int|
            0 <= j < n ==> -1 <= (#[trigger] dirs[j]).0 <= 1 && -1 <= dirs[j].1 <= 1 && !(dirs[j].0
                == 0 && dirs[j].1 == 0),
        f1 >= 7,
        f2 >= 7,
    ensures
        spec_dirs_moves(g, player, start, dirs, n, f1) == spec_dirs_moves(
            g,
            player,
            start,
            dirs,
            n,
            f2,
        ),
    decreases n,
{
    if n > 0 {
        lemma_dirs_moves_fuel(g, player, start, dirs, n - 1, f1, f2);
        assert(ray_room(start, dirs[n - 1].0, dirs[n - 1].1) <= 7);
        lemma_ray_moves_fuel(g, player, start, start, dirs[n - 1].0, dirs[n - 1].1, f1, f2);
    }
}

/// The direction pairs of `dirs` as mathematical integers.
pub open spec fn dirs_int(dirs: Seq<(i8, i8)>) -> Seq<(int, int)> {
    dirs.map_values(|d: (i8, i8)| (d.0 as int, d.1 as int))
}

/// The rays of the first `n` directions of `dirs`, in order.
pub open spec fn spec_dirs_moves(
    g: Game,
    player: Player,
    start: Position,
    dirs: Seq<(int, int)>,
    n: int,
    fuel: nat,
) -> Seq<Move>
    decreases n,
{
    if n <= 0 {
        Seq::empty()
    } else {
        spec_dirs_moves(g, player, start, dirs, n - 1, fuel) + spec_ray_moves(
            g,
            player,
            start,
            start,
            dirs[n - 1].0,
            dirs[n - 1].1,
            fuel,
        )
    }
}

/// Every ray move starts on `start` and is well formed.
pub proof fn lemma_ray_moves_wf(
    g: Game,
    player: Player,
    start: Position,
    cur: Position,
    dx: int,
    dy: int,
    fuel: nat,
)
    requires
        start.wf(),
    ensures
        forall|i: int|
            0 <= i < spec_ray_moves(g, player, start, cur, dx, dy, fuel).len() ==> (
            #[trigger] spec_ray_moves(g, player, start, cur, dx, dy, fuel)[i]).from == start
                && spec_ray_moves(g, player, start, cur, dx, dy, fuel)[i].wf(),
    decreases fuel,
{
    if fuel == 0 || !step_ok(cur, dx, dy) {
    } else {
        let next = step(cur, dx, dy);
        match g.board.at(next) {
            None => {
                lemma_ray_moves_wf(g, player, start, next, dx, dy, (fuel - 1) as nat);
            },
            Some(_) => {},
        }
    }
}

/// Every move of the first `n` rays starts on `start` and is well formed.
pub proof fn lemma_dirs_moves_wf(
    g: Game,
    player: Player,
    start: Position,
    dirs: Seq<(int, int)>,
    n: int,
    fuel: nat,
)
    requires
        start.wf(),
    ensures
        forall|i: int|
            0 <= i < spec_dirs_moves(g, player, start, dirs, n, fuel).len() ==> (
            #[trigger] spec_dirs_moves(g, player, start, dirs, n, fuel)[i]).from == start
                && spec_dirs_moves(g, player, start, dirs, n, fuel)[i].wf(),
    decreases n,
{
    if n > 0 {
        lemma_dirs_moves_wf(g, player, start, dirs, n - 1, fuel);
        lemma_ray_moves_wf(g, player, start, start, dirs[n - 1].0, dirs[n - 1].1, fuel);
    }
}

/// A ray yields at most one move per step of fuel.
pub proof fn lemma_ray_moves_len(
    g: Game,
    player: Player,
    start: Position,
    cur: Position,
    dx: int,
    dy: int,
    fuel: nat,
)
    ensures
        spec_ray_moves(g, player, start, cur, dx, dy, fuel).len() <= fuel,
    decreases fuel,
{
    if fuel > 0 && step_ok(cur, dx, dy) {
        let next = step(cur, dx, dy);
        if g.board.at(next) is None {
            lemma_ray_moves_len(g, player, start, next, dx, dy, (fuel - 1) as nat);
        }
    }
}

/// `n` rays of at most `fuel` steps yield at most `n * fuel` moves.
pub proof fn lemma_dirs_moves_len(
    g: Game,
    player: Player,
    start: Position,
    dirs: Seq<(int, int)>,
    n: int,
    fuel: nat,
)
    ensures
        spec_dirs_moves(g, player, start, dirs, n, fuel).len() <= (if n <= 0 {
            0
        } else {
            n * fuel
        }),
    decreases n,
{
    if n > 0 {
        lemma_dirs_moves_len(g, player, start, dirs, n - 1, fuel);
        lemma_ray_moves_len(g, player, start, start, dirs[n - 1].0, dirs[n - 1].1, fuel);
        assert((n - 1) * fuel + fuel == n * fuel) by (nonlinear_arith);
    }
}

/// Full-length rays: seven steps of fuel, which [`lemma_dirs_moves_fuel`]
/// shows saturates a walk on the 8x8 board.
pub fn generate_moves(game: &Game, player: Player, start_position: Position, directions: &[(
    i8,
    i8,
)]) -> (r: Vec<Move>)
    requires
        game.wf(),
        start_position.wf(),
    ensures
        r@ == spec_dirs_moves(
            *game,
            player,
            start_position,
            dirs_int(directions@),
            directions@.len() as int,
            7,
        ),
{
    generate_moves_with_limit(game, player, start_position, directions, 7)
}

/// Single-step rays, for the fixed-offset pieces.
pub fn generate_moves_one_square(game: &Game, player: Player, start_position: Position, directions: &[(
    i8,
    i8,
)]) -> (r: Vec<Move>)
    requires
        game.wf(),
        start_position.wf(),
    ensures
        r@ == spec_dirs_moves(
            *game,
            player,
            start_position,
            dirs_int(directions@),
            directions@.len() as int,
            1,
        ),
{
    generate_moves_with_limit(game, player, start_position, directions, 1)
}

fn generate_moves_with_limit(
    game: &Game,
    player: Player,
    start_position: Position,
    directions: &[(i8, i8)],
    limit: u8,
) -> (r: Vec<Move>)
    requires
        game.wf(),
        start_position.wf(),
    ensures
        r@ == spec_dirs_moves(
            *game,
            player,
            start_position,
            dirs_int(directions@),
            directions@.len() as int,
            limit as nat,
        ),
{
    let ghost dirs = dirs_int(directions@);
    let mut results: Vec<Move> = Vec::new();
    let mut di: usize = 0;
    while di < directions.len()
        invariant
            game.wf(),
            start_position.wf(),
            di <= directions@.len(),
            dirs == dirs_int(directions@),
            results@ == spec_dirs_moves(*game, player, start_position, dirs, di as int, limit as nat),
        decreases directions@.len() - di,
    {
        let (dx, dy) = directions[di];
        proof {
            assert(dirs[di as int] == (dx as int, dy as int));
        }
        let mut position = start_position;
        let mut steps: u8 = 0;
        let mut stopped = false;
        while steps < limit && !stopped
            invariant
                game.wf(),
                start_position.wf(),
                position.wf(),
                steps <= limit,
                di < directions@.len(),
                dirs == dirs_int(directions@),
                dirs[di as int] == (dx as int, dy as int),
                stopped ==> results@ == spec_dirs_moves(
                    *game,
                    player,
                    start_position,
                    dirs,
                    di as int + 1,
                    limit as nat,
                ),
                !stopped ==> results@ + spec_ray_moves(
                    *game,
                    player,
                    start_position,
                    position,
                    dx as int,
                    dy as int,
                    (limit - steps) as nat,
                ) == spec_dirs_moves(
                    *game,
                    player,
                    start_position,
                    dirs,
                    di as int + 1,
                    limit as nat,
                ),
            decreases limit - steps,
        {
            match step_checked(position, dx, dy) {
                None => {
                    stopped = true;
                },
                Some(next) => {
                    match game.board.get(next) {
                        Some(piece) => {
                            if piece.player() == player.opponent() {
                                results.push(Move::new(start_position, next));
                            }
                            stopped = true;
                        },
                        None => {
                            results.push(Move::new(start_position, next));
                            position = next;
                        },
                    }
                },
            }
            steps = steps + 1;
        }
        proof {
            if !stopped {
                assert(spec_ray_moves(
                    *game,
                    player,
                    start_position,
                    position,
                    dx as int,
                    dy as int,
                    (limit - steps) as nat,
                ) =~= Seq::<Move>::empty());
            }
            assert(results@ == spec_dirs_moves(
                *game,
                player,
                start_position,
                dirs,
                di as int + 1,
                limit as nat,
            ));
        }
        di = di + 1;
    }
    results
}

} // verus!
