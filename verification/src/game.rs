//! The game state machine: a board plus side to move, en-passant target and
//! castling rights, with move generation, legality filtering and check
//! detection. Every rule application returns a new `Game` value.

use vstd::prelude::*;

use crate::board::{
    Board, Piece, PieceType, Player, Position, pos_of, position_of_index, lemma_pos_of_idx,
    COL_A, COL_C, COL_E, COL_G, COL_H, COL_F, COL_D, ROW_1, ROW_8,
};

pub mod bishop;
pub mod king;
pub mod knight;
pub mod move_list;
pub mod pawn;
pub mod queen;
pub mod rook;

use crate::game::king::{spec_castle_moves, list_castle_moves};

verus! {

/// A position with its metadata: whose turn it is, which square (if any) an
/// en-passant capture may target, and which castling moves are still
/// allowed, as `(queenside, kingside)` per side.
#[derive(Clone, Copy, Debug, PartialEq)]
pub struct Game {
    pub board: Board,
    pub player_turn: Player,
    pub en_passant: Option<Position>,
    pub castle_white: (bool, bool),
    pub castle_black: (bool, bool),
}

/// A move descriptor: origin and destination squares, the en-passant target
/// the move leaves behind (set only by a pawn double advance), and the
/// piece kind a promoting pawn turns into. Applying it is a separate
/// operation, [`Move::new_game`].
#[derive(Clone, Copy, Debug, PartialEq)]
pub struct Move {
    pub from: Position,
    pub to: Position,
    pub en_passant: Option<Position>,
    pub promotion: Option<PieceType>,
}

pub open spec fn opt_pos_wf(p: Option<Position>) -> bool {
    match p {
        Some(q) => q.wf(),
        None => true,
    }
}

impl Game {
    pub open spec fn wf(self) -> bool {
        opt_pos_wf(self.en_passant)
    }
}

impl Move {
    pub open spec fn wf(self) -> bool {
        self.from.wf() && self.to.wf() && opt_pos_wf(self.en_passant)
    }
}

/// The same position with the other side to move.
pub open spec fn flip(g: Game) -> Game {
    Game { player_turn: g.player_turn.spec_opponent(), ..g }
}

/// Whether applying `m` relocates a castling rook: the moved piece is a
/// king leaving the e file for the g or c file of the same row.
pub open spec fn is_castle_move(g: Game, m: Move) -> bool {
    &&& g.board.at(m.from) matches Some(pc) && pc.piece_type == PieceType::King
    &&& m.from.column == COL_E
    &&& m.to.row == m.from.row
    &&& (m.to.column == COL_G || m.to.column == COL_C)
}

/// The game after applying `m` to `g`: the moved piece (substituted when
/// promoting) goes from `m.from` to `m.to`; a move onto the recorded
/// en-passant target also removes the piece on the destination file at the
/// origin row; a castle also relocates the rook and a move from a king or
/// rook home square clears the matching castling rights; the en-passant
/// target is taken from the move and the turn passes to the opponent.
pub open spec fn spec_new_game(g: Game, m: Move) -> Game
    recommends
        g.wf(),
        m.wf(),
        g.board.at(m.from) is Some,
{
    let pc0 = g.board.at(m.from)->0;
    let moved = match m.promotion {
        Some(piece_type) => Piece { piece_type, player: pc0.player },
        None => pc0,
    };
    let b1 = g.board.spec_put(m.to, moved).spec_remove(m.from);
    let b2 = if g.en_passant == Some(m.to) {
        b1.spec_remove(Position { column: m.to.column, row: m.from.row })
    } else {
        b1
    };
    let castled = is_castle_move(g, m);
    let b3 = if castled {
        let rook_from = if m.to.column == COL_C { COL_A } else { COL_H };
        let rook_to = if m.to.column == COL_C { COL_D } else { COL_F };
        b2.spec_remove(Position { column: rook_from, row: m.to.row }).spec_put(
            Position { column: rook_to, row: m.to.row },
            Piece { piece_type: PieceType::Rook, player: pc0.player },
        )
    } else {
        b2
    };
    let a1 = Position { column: COL_A, row: ROW_1 };
    let e1 = Position { column: COL_E, row: ROW_1 };
    let h1 = Position { column: COL_H, row: ROW_1 };
    let a8 = Position { column: COL_A, row: ROW_8 };
    let e8 = Position { column: COL_E, row: ROW_8 };
    let h8 = Position { column: COL_H, row: ROW_8 };
    let white_castled = castled && pc0.player == Player::White;
    let black_castled = castled && pc0.player == Player::Black;
    Game {
        board: b3,
        player_turn: g.player_turn.spec_opponent(),
        en_passant: m.en_passant,
        castle_white: (
            g.castle_white.0 && m.from != a1 && m.from != e1 && !white_castled,
            g.castle_white.1 && m.from != h1 && m.from != e1 && !white_castled,
        ),
        castle_black: (
            g.castle_black.0 && m.from != a8 && m.from != e8 && !black_castled,
            g.castle_black.1 && m.from != h8 && m.from != e8 && !black_castled,
        ),
    }
}

impl Move {
    pub fn new(from: Position, to: Position) -> (r: Move)
        ensures
            r == (Move { from, to, en_passant: None, promotion: None }),
    {
        Move { from, to, en_passant: None, promotion: None }
    }

    pub fn new_with_en_passant(from: Position, to: Position, en_passant: Position) -> (r: Move)
        ensures
            r == (Move { from, to, en_passant: Some(en_passant), promotion: None }),
    {
        Move { from, to, en_passant: Some(en_passant), promotion: None }
    }

    pub fn new_with_promotion(from: Position, to: Position, promotion: PieceType) -> (r: Move)
        ensures
            r == (Move { from, to, en_passant: None, promotion: Some(promotion) }),
    {
        Move { from, to, en_passant: None, promotion: Some(promotion) }
    }

    /// Applies this move to `game`, yielding the next game value as
    /// [`spec_new_game`] describes.
    pub fn new_game(&self, game: &Game) -> (r: Game)
        requires
            game.wf(),
            self.wf(),
            game.board.at(self.from) is Some,
            game.board.at(self.from)->0.player == game.player_turn,
        ensures
            r == spec_new_game(*game, *self),
            r.wf(),
    {
        let pc0 = game.board.get(self.from).unwrap();
        let moved = match self.promotion {
            Some(piece_type) => Piece::new(piece_type, pc0.player),
            None => pc0,
        };
        let b1 = game.board.put(self.to, moved).remove(self.from);
        let en_passant_capture = match game.en_passant {
            Some(t) => t == self.to,
            None => false,
        };
        let b2 = if en_passant_capture {
            b1.remove(Position { column: self.to.column, row: self.from.row })
        } else {
            b1
        };
        let castled = pc0.piece_type == PieceType::King && self.from.column == COL_E
            && self.to.row == self.from.row
            && (self.to.column == COL_G || self.to.column == COL_C);
        let b3 = if castled {
            let rook_from = if self.to.column == COL_C { COL_A } else { COL_H };
            let rook_to = if self.to.column == COL_C { COL_D } else { COL_F };
            b2.remove(Position { column: rook_from, row: self.to.row }).put(
                Position { column: rook_to, row: self.to.row },
                Piece::new(PieceType::Rook, pc0.player),
            )
        } else {
            b2
        };
        let a1 = Position { column: COL_A, row: ROW_1 };
        let e1 = Position { column: COL_E, row: ROW_1 };
        let h1 = Position { column: COL_H, row: ROW_1 };
        let a8 = Position { column: COL_A, row: ROW_8 };
        let e8 = Position { column: COL_E, row: ROW_8 };
        let h8 = Position { column: COL_H, row: ROW_8 };
        let white_castled = castled && pc0.player == Player::White;
        let black_castled = castled && pc0.player == Player::Black;
        Game {
            board: b3,
            player_turn: game.player_turn.opponent(),
            en_passant: self.en_passant,
            castle_white: (
                game.castle_white.0 && !(self.from == a1) && !(self.from == e1) && !white_castled,
                game.castle_white.1 && !(self.from == h1) && !(self.from == e1) && !white_castled,
            ),
            castle_black: (
                game.castle_black.0 && !(self.from == a8) && !(self.from == e8) && !black_castled,
                game.castle_black.1 && !(self.from == h8) && !(self.from == e8) && !black_castled,
            ),
        }
    }
}

impl Game {
    /// The standard starting position, White to move, all castling allowed.
    pub fn new() -> (r: Game)
        ensures
            forall|p: Position| p.wf() ==> r.board.at(p) == Board::start_piece(p),
            r.player_turn == Player::White,
            r.en_passant is None,
            r.castle_white == (true, true),
            r.castle_black == (true, true),
            r.wf(),
    {
        Game::from_board(Board::starting_position(), Player::White)
    }

    pub fn from_board(board: Board, player: Player) -> (r: Game)
        ensures
            r == (Game {
                board,
                player_turn: player,
                en_passant: None,
                castle_white: (true, true),
                castle_black: (true, true),
            }),
    {
        Game::from_board_with_castle(board, player, true, true, true, true)
    }

    pub fn from_board_with_castle(
        board: Board,
        player: Player,
        castle_a_white: bool,
        castle_h_white: bool,
        castle_a_black: bool,
        castle_h_black: bool,
    ) -> (r: Game)
        ensures
            r == (Game {
                board,
                player_turn: player,
                en_passant: None,
                castle_white: (castle_a_white, castle_h_white),
                castle_black: (castle_a_black, castle_h_black),
            }),
    {
        Game {
            board,
            player_turn: player,
            en_passant: None,
            castle_white: (castle_a_white, castle_h_white),
            castle_black: (castle_a_black, castle_h_black),
        }
    }

    pub fn board(&self) -> (r: &Board)
        ensures
            *r == self.board,
    {
        &self.board
    }

    pub fn turn(&self) -> (r: Player)
        ensures
            r == self.player_turn,
    {
        self.player_turn
    }

    pub fn get_piece_at(&self, position: Position) -> (r: Option<Piece>)
        requires
            position.wf(),
        ensures
            r == self.board.at(position),
    {
        self.board.get(position)
    }

    pub fn create_move(&self, from: Position, to: Position) -> (r: Move)
        ensures
            r == (Move { from, to, en_passant: None, promotion: None }),
    {
        Move::new(from, to)
    }

    pub fn create_move_en_passant(&self, from: Position, to: Position, en_passant: Position) -> (r:
        Move)
        ensures
            r == (Move { from, to, en_passant: Some(en_passant), promotion: None }),
    {
        Move::new_with_en_passant(from, to, en_passant)
    }

    pub fn create_move_with_promotion(&self, from: Position, to: Position, promotion: PieceType) -> (r: Move)
        ensures
            r == (Move { from, to, en_passant: None, promotion: Some(promotion) }),
    {
        Move::new_with_promotion(from, to, promotion)
    }
}

/// Pseudo-legal moves of the piece `pc` standing on `from`, by its kind.
pub open spec fn spec_piece_moves(g: Game, from: Position, pc: Piece) -> Seq<Move> {
    match pc.piece_type {
        PieceType::Pawn => pawn::spec_pawn_moves(g, from, pc.player),
        PieceType::Rook => rook::spec_rook_moves(g, from, pc.player),
        PieceType::Bishop => bishop::spec_bishop_moves(g, from, pc.player),
        PieceType::Queen => queen::spec_queen_moves(g, from, pc.player),
        PieceType::Knight => knight::spec_knight_moves(g, from, pc.player),
        PieceType::King => king::spec_king_moves(g, from, pc.player),
    }
}

/// The pseudo-legal moves of the side to move, over the first `n` board
/// squares.
pub open spec fn spec_moves_no_check_upto(g: Game, n: int) -> Seq<Move>
    decreases n,
{
    if n <= 0 {
        Seq::empty()
    } else {
        spec_moves_no_check_upto(g, n - 1) + match g.board.squares@[n - 1] {
            Some(pc) => if pc.player == g.player_turn {
                spec_piece_moves(g, pos_of(n - 1), pc)
            } else {
                Seq::empty()
            },
            None => Seq::empty(),
        }
    }
}

/// Every pseudo-legal move of the side to move, without castling and
/// without the king-safety filter.
pub open spec fn spec_moves_no_check(g: Game) -> Seq<Move> {
    spec_moves_no_check_upto(g, 64)
}

/// Whether some pseudo-legal move of the opponent targets `position`.
pub open spec fn spec_is_check(g: Game, position: Position) -> bool {
    exists|i: int|
        0 <= i < spec_moves_no_check(flip(g)).len() && spec_moves_no_check(flip(g))[i].to
            == position
}

/// The first board square from index `i` on that holds the king of the
/// side to move.
pub open spec fn king_from(g: Game, i: int) -> Option<Position>
    decreases 64 - i,
{
    if i < 0 || i >= 64 {
        None
    } else if g.board.squares@[i] matches Some(pc) && pc.piece_type == PieceType::King && pc.player
        == g.player_turn {
        Some(pos_of(i))
    } else {
        king_from(g, i + 1)
    }
}

/// The square of the king of the side to move, if it is on the board.
pub open spec fn spec_king_square(g: Game) -> Option<Position> {
    king_from(g, 0)
}

/// Whether the king of the side to move stands attacked.
pub open spec fn spec_is_king_check(g: Game) -> bool {
    match spec_king_square(g) {
        Some(kp) => spec_is_check(g, kp),
        None => false,
    }
}

/// Whether applying `m` leaves the mover's own king unattacked.
pub open spec fn spec_keeps_king_safe(g: Game, m: Move) -> bool {
    !spec_is_king_check(Game { player_turn: g.player_turn, ..spec_new_game(g, m) })
}

/// The candidate moves of the side to move: every pseudo-legal move, then
/// the castling moves of its king.
pub open spec fn spec_candidate_moves(g: Game) -> Seq<Move> {
    spec_moves_no_check(g) + match spec_king_square(g) {
        Some(kp) => spec_castle_moves(g, kp, g.player_turn),
        None => Seq::empty(),
    }
}

/// The first `n` candidates, kept only when they leave the mover's king
/// safe.
pub open spec fn legal_upto(g: Game, cand: Seq<Move>, n: int) -> Seq<Move>
    decreases n,
{
    if n <= 0 {
        Seq::empty()
    } else {
        legal_upto(g, cand, n - 1) + (if spec_keeps_king_safe(g, cand[n - 1]) {
            seq![cand[n - 1]]
        } else {
            Seq::<Move>::empty()
        })
    }
}

/// The legal moves of the side to move: the candidates that leave the
/// mover's own king unattacked.
pub open spec fn spec_list_moves(g: Game) -> Seq<Move> {
    legal_upto(g, spec_candidate_moves(g), spec_candidate_moves(g).len() as int)
}

pub open spec fn spec_is_stalemate(g: Game) -> bool {
    spec_list_moves(g).len() == 0 && !spec_is_king_check(g)
}

pub open spec fn spec_is_mate(g: Game) -> bool {
    spec_list_moves(g).len() == 0 && spec_is_king_check(g)
}

/// A single piece has at most 56 pseudo-legal moves (a queen's eight rays
/// of up to seven squares).
proof fn lemma_piece_moves_len(g: Game, from: Position, pc: Piece)
    ensures
        spec_piece_moves(g, from, pc).len() <= 56,
{
    match pc.piece_type {
        PieceType::Pawn => pawn::lemma_pawn_moves_len(g, from, pc.player),
        PieceType::Rook => move_list::lemma_dirs_moves_len(g, pc.player, from, rook::rook_dirs(), 4, 7),
        PieceType::Bishop => move_list::lemma_dirs_moves_len(g, pc.player, from, bishop::bishop_dirs(), 4, 7),
        PieceType::Queen => move_list::lemma_dirs_moves_len(g, pc.player, from, queen::queen_dirs(), 8, 7),
        PieceType::Knight => move_list::lemma_dirs_moves_len(g, pc.player, from, knight::knight_dirs(), 8, 1),
        PieceType::King => move_list::lemma_dirs_moves_len(g, pc.player, from, king::king_dirs(), 8, 1),
    }
}

proof fn lemma_moves_no_check_len(g: Game, n: int)
    requires
        0 <= n,
    ensures
        spec_moves_no_check_upto(g, n).len() <= 56 * n,
    decreases n,
{
    if n > 0 {
        lemma_moves_no_check_len(g, n - 1);
        match g.board.squares@[n - 1] {
            Some(pc) => {
                if pc.player == g.player_turn {
                    lemma_piece_moves_len(g, pos_of(n - 1), pc);
                }
            },
            None => {},
        }
    }
}

proof fn lemma_legal_upto_len(g: Game, cand: Seq<Move>, n: int)
    ensures
        legal_upto(g, cand, n).len() <= (if n <= 0 { 0 } else { n }),
    decreases n,
{
    if n > 0 {
        lemma_legal_upto_len(g, cand, n - 1);
    }
}

/// A position has at most 3586 legal moves (the loose bound of 56 per
/// square plus the two castles).
pub proof fn lemma_list_moves_len(g: Game)
    ensures
        spec_list_moves(g).len() <= 3586,
{
    lemma_moves_no_check_len(g, 64);
    let cand = spec_candidate_moves(g);
    lemma_legal_upto_len(g, cand, cand.len() as int);
}

/// Every move of `spec_piece_moves` starts on `from` and is well formed.
proof fn lemma_piece_moves_applicable(g: Game, from: Position, pc: Piece)
    requires
        from.wf(),
        pc.player == g.player_turn,
    ensures
        forall|i: int|
            0 <= i < spec_piece_moves(g, from, pc).len() ==> (#[trigger] spec_piece_moves(
                g,
                from,
                pc,
            )[i]).from == from && spec_piece_moves(g, from, pc)[i].wf(),
{
    match pc.piece_type {
        PieceType::Pawn => pawn::lemma_pawn_moves_wf(g, from, pc.player),
        PieceType::Rook => move_list::lemma_dirs_moves_wf(g, pc.player, from, rook::rook_dirs(), 4, 7),
        PieceType::Bishop => move_list::lemma_dirs_moves_wf(g, pc.player, from, bishop::bishop_dirs(), 4, 7),
        PieceType::Queen => move_list::lemma_dirs_moves_wf(g, pc.player, from, queen::queen_dirs(), 8, 7),
        PieceType::Knight => move_list::lemma_dirs_moves_wf(g, pc.player, from, knight::knight_dirs(), 8, 1),
        PieceType::King => move_list::lemma_dirs_moves_wf(g, pc.player, from, king::king_dirs(), 8, 1),
    }
}

proof fn lemma_moves_no_check_applicable(g: Game, n: int)
    requires
        g.wf(),
        0 <= n <= 64,
    ensures
        forall|i: int|
            0 <= i < spec_moves_no_check_upto(g, n).len() ==> {
                let m = #[trigger] spec_moves_no_check_upto(g, n)[i];
                &&& m.wf()
                &&& g.board.at(m.from) is Some
                &&& g.board.at(m.from)->0.player == g.player_turn
            },
    decreases n,
{
    if n > 0 {
        lemma_moves_no_check_applicable(g, n - 1);
        match g.board.squares@[n - 1] {
            Some(pc) => {
                if pc.player == g.player_turn {
                    lemma_pos_of_idx(n - 1);
                    lemma_piece_moves_applicable(g, pos_of(n - 1), pc);
                }
            },
            None => {},
        }
    }
}

/// A found king square holds the king of the side to move.
proof fn lemma_king_from(g: Game, i: int)
    requires
        0 <= i,
    ensures
        king_from(g, i) matches Some(kp) ==> kp.wf() && (g.board.at(kp) matches Some(pc)
            && pc.piece_type == PieceType::King && pc.player == g.player_turn),
    decreases 64 - i,
{
    if 0 <= i < 64 {
        if g.board.squares@[i] matches Some(pc) && pc.piece_type == PieceType::King && pc.player
            == g.player_turn {
            lemma_pos_of_idx(i);
        } else {
            lemma_king_from(g, i + 1);
        }
    }
}

/// Every candidate move is well formed and moves a piece of the side to
/// move; applying it is therefore defined.
pub proof fn lemma_candidates_applicable(g: Game, m: Move)
    requires
        g.wf(),
        spec_candidate_moves(g).contains(m),
    ensures
        m.wf(),
        g.board.at(m.from) is Some,
        g.board.at(m.from)->0.player == g.player_turn,
{
    lemma_moves_no_check_applicable(g, 64);
    let i = choose|i: int|
        0 <= i < spec_candidate_moves(g).len() && spec_candidate_moves(g)[i] == m;
    if i >= spec_moves_no_check(g).len() {
        let kp = spec_king_square(g)->0;
        lemma_king_from(g, 0);
        king::lemma_castle_moves_applicable(g, kp, g.player_turn);
    }
}

/// Every legal move is a candidate and leaves the mover's king safe.
pub proof fn lemma_legal_upto_member(g: Game, cand: Seq<Move>, n: int, m: Move)
    requires
        0 <= n <= cand.len(),
        legal_upto(g, cand, n).contains(m),
    ensures
        cand.contains(m),
        spec_keeps_king_safe(g, m),
    decreases n,
{
    if n > 0 {
        let s = legal_upto(g, cand, n);
        let i = choose|i: int| 0 <= i < s.len() && s[i] == m;
        if i < legal_upto(g, cand, n - 1).len() {
            lemma_legal_upto_member(g, cand, n - 1, m);
        } else {
            assert(cand[n - 1] == m);
        }
    }
}

proof fn lemma_legal_upto_complete(g: Game, cand: Seq<Move>, n: int, i: int)
    requires
        0 <= i < n <= cand.len(),
        spec_keeps_king_safe(g, cand[i]),
    ensures
        legal_upto(g, cand, n).contains(cand[i]),
    decreases n,
{
    if i == n - 1 {
        let s = legal_upto(g, cand, n);
        assert(s[s.len() - 1] == cand[i]);
    } else {
        lemma_legal_upto_complete(g, cand, n - 1, i);
        let prev = legal_upto(g, cand, n - 1);
        let j = choose|j: int| 0 <= j < prev.len() && prev[j] == cand[i];
        assert(legal_upto(g, cand, n)[j] == cand[i]);
    }
}

/// The legality filter keeps every candidate that leaves the mover's own
/// king unattacked: nothing legal is dropped.
pub proof fn lemma_list_moves_complete(g: Game, i: int)
    requires
        0 <= i < spec_candidate_moves(g).len(),
        spec_keeps_king_safe(g, spec_candidate_moves(g)[i]),
    ensures
        spec_list_moves(g).contains(spec_candidate_moves(g)[i]),
{
    let cand = spec_candidate_moves(g);
    lemma_legal_upto_complete(g, cand, cand.len() as int, i);
}

/// Every move of `spec_list_moves` is a candidate that leaves the mover's
/// own king unattacked; in particular it is well formed and moves a piece
/// of the side to move.
pub proof fn lemma_list_moves_member(g: Game, m: Move)
    requires
        g.wf(),
        spec_list_moves(g).contains(m),
    ensures
        spec_candidate_moves(g).contains(m),
        spec_keeps_king_safe(g, m),
        m.wf(),
        g.board.at(m.from) is Some,
        g.board.at(m.from)->0.player == g.player_turn,
{
    lemma_legal_upto_member(g, spec_candidate_moves(g), spec_candidate_moves(g).len() as int, m);
    lemma_candidates_applicable(g, m);
}

/// Applying any legal move never leaves the mover's own king attacked:
/// the generators and the legality filter agree.
pub proof fn lemma_legal_moves_king_safe(g: Game, m: Move)
    requires
        g.wf(),
        spec_list_moves(g).contains(m),
    ensures
        !spec_is_king_check(Game { player_turn: g.player_turn, ..spec_new_game(g, m) }),
{
    lemma_list_moves_member(g, m);
}

impl Game {
    /// Every pseudo-legal move of the side to move, in board-square order,
    /// without castling and without filtering out moves that leave the own
    /// king attacked.
    pub fn list_moves_no_check(&self) -> (r: Vec<Move>)
        requires
            self.wf(),
        ensures
            r@ == spec_moves_no_check(*self),
    {
        let mut r: Vec<Move> = Vec::new();
        let mut i: usize = 0;
        while i < 64
            invariant
                self.wf(),
                i <= 64,
                r@ == spec_moves_no_check_upto(*self, i as int),
            decreases 64 - i,
        {
            let p = position_of_index(i);
            match self.board.get(p) {
                Some(pc) => {
                    if pc.player() == self.player_turn {
                        let mut part = match pc.piece_type() {
                            PieceType::Pawn => pawn::list_pawn_moves(self, p, pc.player()),
                            PieceType::Rook => rook::list_rook_moves(self, p, pc.player()),
                            PieceType::Bishop => bishop::list_bishop_moves(self, p, pc.player()),
                            PieceType::Queen => queen::list_queen_moves(self, p, pc.player()),
                            PieceType::Knight => knight::list_knight_moves(self, p, pc.player()),
                            PieceType::King => king::list_king_moves(self, p, pc.player()),
                        };
                        r.append(&mut part);
                    }
                },
                None => {},
            }
            i = i + 1;
            proof {
                assert(r@ =~= spec_moves_no_check_upto(*self, i as int));
            }
        }
        r
    }

    /// Whether some pseudo-legal move of the opponent targets `position`.
    pub fn is_check(&self, position: Position) -> (r: bool)
        requires
            self.wf(),
            position.wf(),
        ensures
            r == spec_is_check(*self, position),
    {
        let flipped = Game { player_turn: self.player_turn.opponent(), ..*self };
        let moves = flipped.list_moves_no_check();
        let mut i: usize = 0;
        while i < moves.len()
            invariant
                moves@ == spec_moves_no_check(flip(*self)),
                i <= moves@.len(),
                forall|j: int| 0 <= j < i ==> moves@[j].to != position,
            decreases moves@.len() - i,
        {
            if moves[i].to == position {
                return true;
            }
            i = i + 1;
        }
        false
    }

    /// The square of this side's king, if it is on the board.
    pub fn king_position(&self) -> (r: Option<Position>)
        ensures
            r == spec_king_square(*self),
            r matches Some(kp) ==> kp.wf(),
    {
        let mut i: usize = 0;
        while i < 64
            invariant
                i <= 64,
                king_from(*self, 0) == king_from(*self, i as int),
            decreases 64 - i,
        {
            let p = position_of_index(i);
            match self.board.get(p) {
                Some(pc) => {
                    if pc.piece_type() == PieceType::King && pc.player() == self.player_turn {
                        return Some(p);
                    }
                },
                None => {},
            }
            i = i + 1;
        }
        None
    }

    /// Whether this side's own king stands attacked.
    pub fn is_king_check(&self) -> (r: bool)
        requires
            self.wf(),
        ensures
            r == spec_is_king_check(*self),
    {
        match self.king_position() {
            Some(kp) => self.is_check(kp),
            None => false,
        }
    }

    /// Every legal move of the side to move: the pseudo-legal moves plus
    /// castling, kept only when the resulting position leaves the mover's
    /// own king unattacked.
    pub fn list_moves(&self) -> (r: Vec<Move>)
        requires
            self.wf(),
        ensures
            r@ == spec_list_moves(*self),
    {
        let king_pos = self.king_position();
        let mut candidates = self.list_moves_no_check();
        match king_pos {
            Some(kp) => {
                let mut castles = list_castle_moves(self, kp, self.player_turn);
                candidates.append(&mut castles);
            },
            None => {
                proof {
                    assert(candidates@ =~= spec_candidate_moves(*self));
                }
            },
        }
        proof {
            assert(candidates@ =~= spec_candidate_moves(*self));
        }
        let mut result: Vec<Move> = Vec::new();
        let mut i: usize = 0;
        while i < candidates.len()
            invariant
                self.wf(),
                candidates@ == spec_candidate_moves(*self),
                i <= candidates@.len(),
                result@ == legal_upto(*self, candidates@, i as int),
            decreases candidates@.len() - i,
        {
            let m = candidates[i];
            proof {
                assert(spec_candidate_moves(*self).contains(m));
                lemma_candidates_applicable(*self, m);
            }
            let next = m.new_game(self);
            let check_game = Game { player_turn: self.player_turn, ..next };
            if !check_game.is_king_check() {
                result.push(m);
            }
            i = i + 1;
            proof {
                assert(result@ =~= legal_upto(*self, candidates@, i as int));
            }
        }
        result
    }

    pub fn is_stalemate(&self) -> (r: bool)
        requires
            self.wf(),
        ensures
            r == spec_is_stalemate(*self),
    {
        self.list_moves().is_empty() && !self.is_king_check()
    }

    pub fn is_mate(&self) -> (r: bool)
        requires
            self.wf(),
        ensures
            r == spec_is_mate(*self),
    {
        self.list_moves().is_empty() && self.is_king_check()
    }
}

/// The first move of `s`, from index `i` on, that goes from `from` to `to`
/// with promotion choice `promotion`.
pub open spec fn find_from(
    s: Seq<Move>,
    i: int,
    from: Position,
    to: Position,
    promotion: Option<PieceType>,
) -> Option<Move>
    decreases s.len() - i,
{
    if i < 0 || i >= s.len() {
        None
    } else if s[i].from == from && s[i].to == to && s[i].promotion == promotion {
        Some(s[i])
    } else {
        find_from(s, i + 1, from, to, promotion)
    }
}

/// The first legal move matching the requested origin, destination and
/// promotion choice, if one exists.
pub open spec fn spec_find_move(
    g: Game,
    from: Position,
    to: Position,
    promotion: Option<PieceType>,
) -> Option<Move> {
    find_from(spec_list_moves(g), 0, from, to, promotion)
}

/// What a found move is: a member of the legal move list with the
/// requested origin, destination and promotion; `None` only when no legal
/// move matches.
pub proof fn lemma_find_from(
    s: Seq<Move>,
    i: int,
    from: Position,
    to: Position,
    promotion: Option<PieceType>,
)
    requires
        0 <= i <= s.len(),
    ensures
        find_from(s, i, from, to, promotion) matches Some(m) ==> s.contains(m) && m.from == from
            && m.to == to && m.promotion == promotion,
        find_from(s, i, from, to, promotion) is None ==> forall|j: int|
            i <= j < s.len() ==> !((#[trigger] s[j]).from == from && s[j].to == to && s[j].promotion
                == promotion),
    decreases s.len() - i,
{
    if i < s.len() {
        if s[i].from == from && s[i].to == to && s[i].promotion == promotion {
        } else {
            lemma_find_from(s, i + 1, from, to, promotion);
        }
    }
}

impl Game {
    /// Executes the move `from` -> `to` with promotion choice `promotion`
    /// when it matches a legal move, and reports an illegal move
    /// otherwise; the prior game value is never changed.
    pub fn execute_promotion(&self, from: Position, to: Position, promotion: Option<PieceType>) -> (r: Result<Game, String>)
        requires
            self.wf(),
            from.wf(),
            to.wf(),
        ensures
            (r is Ok) == (spec_find_move(*self, from, to, promotion) is Some),
            r matches Ok(g2) ==> (spec_find_move(*self, from, to, promotion) matches Some(m)
                && spec_list_moves(*self).contains(m) && m.from == from && m.to == to
                && m.promotion == promotion && g2 == spec_new_game(*self, m) && g2.wf()),
            r is Err ==> forall|j: int|
                0 <= j < spec_list_moves(*self).len() ==> !((#[trigger] spec_list_moves(
                    *self,
                )[j]).from == from && spec_list_moves(*self)[j].to == to && spec_list_moves(
                    *self,
                )[j].promotion == promotion),
            r matches Err(e) ==> e@ == "Illegal move"@,
    {
        proof {
            lemma_find_from(spec_list_moves(*self), 0, from, to, promotion);
        }
        let moves = self.list_moves();
        let mut i: usize = 0;
        while i < moves.len()
            invariant
                self.wf(),
                moves@ == spec_list_moves(*self),
                i <= moves@.len(),
                spec_find_move(*self, from, to, promotion) == find_from(
                    moves@,
                    i as int,
                    from,
                    to,
                    promotion,
                ),
            decreases moves@.len() - i,
        {
            let m = moves[i];
            let promo_match = match (m.promotion, promotion) {
                (None, None) => true,
                (Some(a), Some(b)) => a == b,
                _ => false,
            };
            if m.from == from && m.to == to && promo_match {
                proof {
                    assert(moves@.contains(m));
                    lemma_list_moves_member(*self, m);
                }
                return Ok(m.new_game(self));
            }
            i = i + 1;
        }
        Err("Illegal move".to_owned())
    }

    /// Executes the plain move `from` -> `to` when it matches a legal
    /// move, and reports an illegal move otherwise.
    pub fn execute_move(&self, from: Position, to: Position) -> (r: Result<Game, String>)
        requires
            self.wf(),
            from.wf(),
            to.wf(),
        ensures
            (r is Ok) == (spec_find_move(*self, from, to, None) is Some),
            r matches Ok(g2) ==> (spec_find_move(*self, from, to, None) matches Some(m)
                && spec_list_moves(*self).contains(m) && m.from == from && m.to == to
                && m.promotion is None && g2 == spec_new_game(*self, m) && g2.wf()),
            r is Err ==> forall|j: int|
                0 <= j < spec_list_moves(*self).len() ==> !((#[trigger] spec_list_moves(
                    *self,
                )[j]).from == from && spec_list_moves(*self)[j].to == to && spec_list_moves(
                    *self,
                )[j].promotion is None),
            r matches Err(e) ==> e@ == "Illegal move"@,
    {
        self.execute_promotion(from, to, None)
    }

    /// The pieces standing on the board, in board-square order.
    pub fn list_pieces(&self) -> (r: Vec<Piece>)
        ensures
            r@ == self.board.entries().map_values(|e: (Position, Piece)| e.1),
    {
        let entries = self.board.iter();
        let mut r: Vec<Piece> = Vec::new();
        let mut i: usize = 0;
        while i < entries.len()
            invariant
                entries@ == self.board.entries(),
                i <= entries@.len(),
                r@ == entries@.subrange(0, i as int).map_values(|e: (Position, Piece)| e.1),
            decreases entries@.len() - i,
        {
            r.push(entries[i].1);
            i = i + 1;
            proof {
                assert(r@ =~= entries@.subrange(0, i as int).map_values(
                    |e: (Position, Piece)| e.1,
                ));
            }
        }
        proof {
            assert(entries@.subrange(0, entries@.len() as int) =~= entries@);
        }
        r
    }
}

impl Default for Game {
    fn default() -> (r: Game)
        ensures
            forall|p: Position| p.wf() ==> r.board.at(p) == Board::start_piece(p),
            r.player_turn == Player::White,
            r.en_passant is None,
            r.castle_white == (true, true),
            r.castle_black == (true, true),
    {
        Game::new()
    }
}

} // verus!
