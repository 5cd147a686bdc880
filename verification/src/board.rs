//! Squares, pieces and the board: an 8x8 grid of optional pieces, with
//! value-semantic updates (`put` and `remove` return a new board and leave
//! the old one untouched).

use vstd::prelude::*;

verus! {

broadcast use vstd::array::group_array_axioms;

// The byte values of the file letters `a` to `h` and the rank digits `1`
// to `8` of a square name.
pub const COL_A: u8 = 97;

pub const COL_B: u8 = 98;

pub const COL_C: u8 = 99;

pub const COL_D: u8 = 100;

pub const COL_E: u8 = 101;

pub const COL_F: u8 = 102;

pub const COL_G: u8 = 103;

pub const COL_H: u8 = 104;

pub const ROW_1: u8 = 49;

pub const ROW_2: u8 = 50;

pub const ROW_3: u8 = 51;

pub const ROW_4: u8 = 52;

pub const ROW_5: u8 = 53;

pub const ROW_6: u8 = 54;

pub const ROW_7: u8 = 55;

pub const ROW_8: u8 = 56;

/// The six kinds of chess piece.
#[derive(PartialEq, Eq, Structural, Debug, Copy, Clone, Hash)]
pub enum PieceType {
    King,
    Queen,
    Bishop,
    Knight,
    Rook,
    Pawn,
}

/// The two sides.
#[derive(PartialEq, Eq, Structural, Debug, Copy, Clone, Hash)]
pub enum Player {
    White,
    Black,
}

impl Player {
    /// The other side.
    pub open spec fn spec_opponent(self) -> Player {
        match self {
            Player::White => Player::Black,
            Player::Black => Player::White,
        }
    }

    #[verifier::when_used_as_spec(spec_opponent)]
    pub fn opponent(self) -> (r: Player)
        ensures
            r == self.spec_opponent(),
    {
        match self {
            Player::White => Player::Black,
            Player::Black => Player::White,
        }
    }
}

/// A piece: a kind owned by a side.
#[derive(PartialEq, Eq, Structural, Debug, Copy, Clone)]
pub struct Piece {
    pub piece_type: PieceType,
    pub player: Player,
}

impl Piece {
    pub fn new(piece_type: PieceType, player: Player) -> (r: Piece)
        ensures
            r == (Piece { piece_type, player }),
    {
        Piece { piece_type, player }
    }

    pub fn piece_type(self) -> (r: PieceType)
        ensures
            r == self.piece_type,
    {
        self.piece_type
    }

    pub fn player(self) -> (r: Player)
        ensures
            r == self.player,
    {
        self.player
    }
}

/// A square in algebraic notation, stored as the byte values of its file
/// (`COL_A..=COL_H`) and rank (`ROW_1..=ROW_8`).
#[derive(PartialEq, Eq, Structural, Hash, Debug, Copy, Clone)]
pub struct Position {
    pub column: u8,
    pub row: u8,
}

impl Position {
    /// The file and rank bytes are within the 8x8 board.
    pub open spec fn wf(self) -> bool {
        COL_A <= self.column <= COL_H && ROW_1 <= self.row <= ROW_8
    }

    /// Index of the square in a 64-entry board array, row-major from a1.
    pub open spec fn idx(self) -> int
        recommends
            self.wf(),
    {
        (self.row - ROW_1) * 8 + (self.column - COL_A)
    }

    /// What parsing a two-character square name yields.
    pub open spec fn spec_parse(s: Seq<char>) -> Option<Position> {
        if s.len() == 2 && 'a' <= s[0] <= 'h' && '1' <= s[1] <= '8' {
            Some(Position { column: s[0] as u8, row: s[1] as u8 })
        } else {
            None
        }
    }

    /// Parses a square name such as `"e4"`: exactly one file letter in
    /// `a..=h` followed by one rank digit in `1..=8`.
    pub fn from(pos: &str) -> (r: Option<Position>)
        ensures
            r == Position::spec_parse(pos@),
            r is Some ==> r->0.wf(),
    {
        if pos.unicode_len() == 2 {
            Position::from_chars(pos.get_char(0), pos.get_char(1))
        } else {
            None
        }
    }

    pub fn from_chars(column: char, row: char) -> (r: Option<Position>)
        ensures
            r == (if 'a' <= column <= 'h' && '1' <= row <= '8' {
                Some(Position { column: column as u8, row: row as u8 })
            } else {
                None
            }),
            r is Some ==> r->0.wf(),
    {
        let c = column as u32;
        let w = row as u32;
        if c >= 'a' as u32 && c <= 'h' as u32 && w >= '1' as u32 && w <= '8' as u32 {
            Some(Position { column: c as u8, row: w as u8 })
        } else {
            None
        }
    }

    pub fn from_u8(column: u8, row: u8) -> (r: Option<Position>)
        ensures
            r == (if COL_A <= column <= COL_H && ROW_1 <= row <= ROW_8 {
                Some(Position { column, row })
            } else {
                None
            }),
            r is Some ==> r->0.wf(),
    {
        if column >= COL_A && column <= COL_H && row >= ROW_1 && row <= ROW_8 {
            Some(Position { column, row })
        } else {
            None
        }
    }

    pub fn column(self) -> (r: u8)
        ensures
            r == self.column,
    {
        self.column
    }

    pub fn row(self) -> (r: u8)
        ensures
            r == self.row,
    {
        self.row
    }

    /// The array index of this square.
    pub fn index(self) -> (r: usize)
        requires
            self.wf(),
        ensures
            r == self.idx(),
            r < 64,
    {
        (self.row - ROW_1) as usize * 8 + (self.column - COL_A) as usize
    }

    /// The square name, such as `"e4"`.
    pub fn text(self) -> (r: String)
        requires
            self.wf(),
        ensures
            r@ == seq![self.column as char, self.row as char],
    {
        let col: &str = match self.column {
            COL_A => "a",
            COL_B => "b",
            COL_C => "c",
            COL_D => "d",
            COL_E => "e",
            COL_F => "f",
            _ => if self.column == COL_G { "g" } else { "h" },
        };
        let row: &str = match self.row {
            ROW_1 => "1",
            ROW_2 => "2",
            ROW_3 => "3",
            ROW_4 => "4",
            ROW_5 => "5",
            ROW_6 => "6",
            _ => if self.row == ROW_7 { "7" } else { "8" },
        };
        proof {
            reveal_strlit("a"); reveal_strlit("b"); reveal_strlit("c"); reveal_strlit("d");
            reveal_strlit("e"); reveal_strlit("f"); reveal_strlit("g"); reveal_strlit("h");
            reveal_strlit("1"); reveal_strlit("2"); reveal_strlit("3"); reveal_strlit("4");
            reveal_strlit("5"); reveal_strlit("6"); reveal_strlit("7"); reveal_strlit("8");
        }
        let mut r = col.to_owned();
        r.append(row);
        proof {
            assert(r@ =~= seq![self.column as char, self.row as char]);
        }
        r
    }
}

/// The square at a given board-array index.
pub open spec fn pos_of(i: int) -> Position
    recommends
        0 <= i < 64,
{
    Position { column: (COL_A + (i % 8)) as u8, row: (ROW_1 + (i / 8)) as u8 }
}

pub proof fn lemma_pos_of_idx(i: int)
    requires
        0 <= i < 64,
    ensures
        pos_of(i).wf(),
        pos_of(i).idx() == i,
{
    assert(0 <= i % 8 < 8 && 0 <= i / 8 < 8 && i == 8 * (i / 8) + i % 8) by (nonlinear_arith)
        requires 0 <= i < 64;
}

pub proof fn lemma_idx_of_pos(p: Position)
    requires
        p.wf(),
    ensures
        0 <= p.idx() < 64,
        pos_of(p.idx()) == p,
{
    let c = (p.column - COL_A) as int;
    let r = (p.row - ROW_1) as int;
    assert((r * 8 + c) % 8 == c && (r * 8 + c) / 8 == r) by (nonlinear_arith)
        requires 0 <= c < 8 && 0 <= r < 8;
}

/// Exec counterpart of [`pos_of`].
pub fn position_of_index(i: usize) -> (r: Position)
    requires
        i < 64,
    ensures
        r == pos_of(i as int),
        r.wf(),
        r.idx() == i,
{
    proof {
        lemma_pos_of_idx(i as int);
    }
    Position { column: COL_A + (i % 8) as u8, row: ROW_1 + (i / 8) as u8 }
}

/// The board: what stands on each of the 64 squares. A plain value; `put`
/// and `remove` copy it, so every earlier board value stays as it was.
#[derive(PartialEq, Debug, Copy, Clone)]
pub struct Board {
    pub squares: [Option<Piece>; 64],
}

impl View for Board {
    type V = Seq<Option<Piece>>;

    open spec fn view(&self) -> Seq<Option<Piece>> {
        self.squares@
    }
}

impl Board {
    /// The piece standing on square `p`, if any.
    pub open spec fn at(self, p: Position) -> Option<Piece>
        recommends
            p.wf(),
    {
        self.squares@[p.idx()]
    }

    /// The board with `pc` standing on `p` and every other square unchanged.
    pub open spec fn spec_put(self, p: Position, pc: Piece) -> Board
        recommends
            p.wf(),
    {
        Board { squares: vstd::array::spec_array_update(self.squares, p.idx(), Some(pc)) }
    }

    /// The board with `p` vacated and every other square unchanged.
    pub open spec fn spec_remove(self, p: Position) -> Board
        recommends
            p.wf(),
    {
        Board { squares: vstd::array::spec_array_update(self.squares, p.idx(), None) }
    }

    pub fn empty() -> (r: Board)
        ensures
            forall|p: Position| p.wf() ==> r.at(p) is None,
    {
        Board { squares: [None; 64] }
    }

    pub fn get(&self, position: Position) -> (r: Option<Piece>)
        requires
            position.wf(),
        ensures
            r == self.at(position),
    {
        proof {
            lemma_idx_of_pos(position);
        }
        self.squares[position.index()]
    }

    pub fn put(&self, position: Position, piece: Piece) -> (r: Board)
        requires
            position.wf(),
        ensures
            r == self.spec_put(position, piece),
            r.at(position) == Some(piece),
            forall|q: Position| q.wf() && q != position ==> r.at(q) == self.at(q),
    {
        proof {
            lemma_idx_of_pos(position);
        }
        let mut squares = self.squares;
        squares[position.index()] = Some(piece);
        let r = Board { squares };
        proof {
            assert(r.squares =~= self.spec_put(position, piece).squares);
            assert forall|q: Position| q.wf() && q != position implies r.at(q) == self.at(q) by {
                lemma_idx_of_pos(q);
                lemma_idx_of_pos(position);
            }
        }
        r
    }

    /// The piece that the standard starting position puts on square `p`.
    pub open spec fn start_piece(p: Position) -> Option<Piece>
        recommends
            p.wf(),
    {
        if p.row == ROW_2 {
            Some(Piece { piece_type: PieceType::Pawn, player: Player::White })
        } else if p.row == ROW_7 {
            Some(Piece { piece_type: PieceType::Pawn, player: Player::Black })
        } else if p.row == ROW_1 || p.row == ROW_8 {
            let player = if p.row == ROW_1 { Player::White } else { Player::Black };
            let piece_type = if p.column == COL_A || p.column == COL_H {
                PieceType::Rook
            } else if p.column == COL_B || p.column == COL_G {
                PieceType::Knight
            } else if p.column == COL_C || p.column == COL_F {
                PieceType::Bishop
            } else if p.column == COL_D {
                PieceType::Queen
            } else {
                PieceType::King
            };
            Some(Piece { piece_type, player })
        } else {
            None
        }
    }

    /// The standard starting position: back ranks on rows 1 and 8, pawns on
    /// rows 2 and 7, every other square empty.
    pub fn starting_position() -> (r: Board)
        ensures
            forall|p: Position| p.wf() ==> r.at(p) == Board::start_piece(p),
    {
        let mut squares: [Option<Piece>; 64] = [None; 64];
        let mut i: usize = 0;
        while i < 64
            invariant
                i <= 64,
                forall|j: int| 0 <= j < i ==> squares@[j] == Board::start_piece(pos_of(j)),
            decreases 64 - i,
        {
            let p = position_of_index(i);
            squares[i] = Board::start_square(p);
            i = i + 1;
        }
        let r = Board { squares };
        proof {
            assert forall|p: Position| p.wf() implies r.at(p) == Board::start_piece(p) by {
                lemma_idx_of_pos(p);
            }
        }
        r
    }

    fn start_square(p: Position) -> (r: Option<Piece>)
        requires
            p.wf(),
        ensures
            r == Board::start_piece(p),
    {
        if p.row == ROW_2 {
            Some(Piece { piece_type: PieceType::Pawn, player: Player::White })
        } else if p.row == ROW_7 {
            Some(Piece { piece_type: PieceType::Pawn, player: Player::Black })
        } else if p.row == ROW_1 || p.row == ROW_8 {
            let player = if p.row == ROW_1 { Player::White } else { Player::Black };
            let piece_type = if p.column == COL_A || p.column == COL_H {
                PieceType::Rook
            } else if p.column == COL_B || p.column == COL_G {
                PieceType::Knight
            } else if p.column == COL_C || p.column == COL_F {
                PieceType::Bishop
            } else if p.column == COL_D {
                PieceType::Queen
            } else {
                PieceType::King
            };
            Some(Piece { piece_type, player })
        } else {
            None
        }
    }

    /// The occupied squares with their pieces, up to board index `n`.
    pub open spec fn entries_upto(self, n: int) -> Seq<(Position, Piece)>
        decreases n,
    {
        if n <= 0 {
            Seq::empty()
        } else {
            self.entries_upto(n - 1) + match self.squares@[n - 1] {
                Some(pc) => seq![(pos_of(n - 1), pc)],
                None => Seq::empty(),
            }
        }
    }

    /// Every occupied square with its piece, in board-index order (a1, b1,
    /// ..., h8).
    pub open spec fn entries(self) -> Seq<(Position, Piece)> {
        self.entries_upto(64)
    }

    /// The board holds at most one piece per square, so at most `n` pieces
    /// stand on the first `n` squares.
    pub proof fn lemma_entries_len(self, n: int)
        ensures
            self.entries_upto(n).len() <= (if n <= 0 { 0 } else { n }),
        decreases n,
    {
        if n > 0 {
            self.lemma_entries_len(n - 1);
        }
    }

    /// Every `(square, piece)` pair of the board, in a fixed order.
    pub fn iter(&self) -> (r: Vec<(Position, Piece)>)
        ensures
            r@ == self.entries(),
    {
        let mut r: Vec<(Position, Piece)> = Vec::new();
        let mut i: usize = 0;
        while i < 64
            invariant
                i <= 64,
                r@ == self.entries_upto(i as int),
            decreases 64 - i,
        {
            let p = position_of_index(i);
            match self.squares[i] {
                Some(pc) => { r.push((p, pc)); },
                None => {},
            }
            i = i + 1;
        }
        r
    }

    pub fn remove(&self, position: Position) -> (r: Board)
        requires
            position.wf(),
        ensures
            r == self.spec_remove(position),
            r.at(position) is None,
            forall|q: Position| q.wf() && q != position ==> r.at(q) == self.at(q),
    {
        proof {
            lemma_idx_of_pos(position);
        }
        let mut squares = self.squares;
        squares[position.index()] = None;
        let r = Board { squares };
        proof {
            assert(r.squares =~= self.spec_remove(position).squares);
            assert forall|q: Position| q.wf() && q != position implies r.at(q) == self.at(q) by {
                lemma_idx_of_pos(q);
                lemma_idx_of_pos(position);
            }
        }
        r
    }
}

} // verus!
