//! Core data model: pieces, colors, moves and the precomputed geometry table.

use vstd::prelude::*;

verus! {

/// Precomputed geometry table: for each of the 64 squares and each of the
/// 8 ray directions, the number of steps to the edge of the board.
pub type SquaresToEdge = Vec<Vec<i16>>;

#[derive(Clone, Copy, Debug, PartialEq, Eq, Structural)]
pub enum ChessPieces {
    Kings,
    Queens,
    Rooks,
    Bishops,
    Knights,
    Pawns,
    Empty,
}

#[derive(Clone, Copy, Debug, PartialEq, Eq, Structural)]
pub enum PieceColor {
    White,
    Black,
    NoColor,
}

#[derive(Clone, Copy, Debug, PartialEq, Eq, Structural)]
pub enum MoveType {
    Castle,
    NoCapture,
    EnPassant,
    Promotion,
    /// Internal tag: a ray that passed through to an enemy king; used for pin
    /// detection only, never playable.
    Piercing,
    Normal,
}

#[derive(Clone, Copy, Debug, PartialEq, Eq, Structural)]
pub struct BoardPiece {
    pub piece_type: ChessPieces,
    pub piece_color: PieceColor,
}

#[derive(Clone, Copy, Debug, PartialEq, Eq, Structural)]
pub struct Move {
    pub start_square: i16,
    pub target_square: i16,
    pub move_type: MoveType,
}

/// Castling rights of the side to move: queenside and kingside.
#[derive(Clone, Copy, Debug, PartialEq, Eq, Structural)]
pub struct Castle {
    pub queenside: bool,
    pub kingside: bool,
}

/// The piece value of an empty square.
pub open spec fn empty_piece() -> BoardPiece {
    BoardPiece { piece_type: ChessPieces::Empty, piece_color: PieceColor::NoColor }
}

/// A board is a sequence of exactly 64 squares.
pub open spec fn board_wf(b: Seq<BoardPiece>) -> bool {
    b.len() == 64
}

/// A square is empty exactly when it is colorless.
pub open spec fn piece_invariant(p: BoardPiece) -> bool {
    (p.piece_type == ChessPieces::Empty) <==> (p.piece_color == PieceColor::NoColor)
}

/// Every square of the board satisfies the kind/color invariant.
pub open spec fn board_pieces_wf(b: Seq<BoardPiece>) -> bool {
    forall|i: int| 0 <= i < b.len() ==> piece_invariant(#[trigger] b[i])
}

/// Builds a move value from mathematical square indices.
pub open spec fn new_move(s: int, t: int, mt: MoveType) -> Move {
    Move { start_square: s as i16, target_square: t as i16, move_type: mt }
}

/// Both squares of the move lie on the board.
pub open spec fn move_in_bounds(m: Move) -> bool {
    &&& 0 <= m.start_square < 64
    &&& 0 <= m.target_square < 64
}

/// Every move of the list references on-board squares only.
pub open spec fn moves_in_bounds(ms: Seq<Move>) -> bool {
    forall|i: int| 0 <= i < ms.len() ==> move_in_bounds(#[trigger] ms[i])
}

/// The piece kinds that slide along rays.
pub open spec fn is_slider(k: ChessPieces) -> bool {
    k == ChessPieces::Rooks || k == ChessPieces::Queens || k == ChessPieces::Bishops
}

impl Default for ChessPieces {
    fn default() -> (r: Self)
        ensures
            r == ChessPieces::Empty,
    {
        ChessPieces::Empty
    }
}

impl Default for PieceColor {
    fn default() -> (r: Self)
        ensures
            r == PieceColor::NoColor,
    {
        PieceColor::NoColor
    }
}

impl Default for MoveType {
    fn default() -> (r: Self)
        ensures
            r == MoveType::Normal,
    {
        MoveType::Normal
    }
}

impl Default for BoardPiece {
    fn default() -> (r: Self)
        ensures
            r == empty_piece(),
    {
        BoardPiece { piece_type: ChessPieces::Empty, piece_color: PieceColor::NoColor }
    }
}

impl Default for Castle {
    fn default() -> (r: Self)
        ensures
            !r.queenside && !r.kingside,
    {
        Castle { queenside: false, kingside: false }
    }
}

/// Concatenation keeps move lists in bounds.
pub proof fn lemma_moves_in_bounds_add(a: Seq<Move>, b: Seq<Move>)
    requires
        moves_in_bounds(a),
        moves_in_bounds(b),
    ensures
        moves_in_bounds(a + b),
{
    assert forall|i: int| 0 <= i < (a + b).len() implies move_in_bounds(#[trigger] (a + b)[i]) by {
        if i < a.len() {
            assert((a + b)[i] == a[i]);
        } else {
            assert((a + b)[i] == b[i - a.len()]);
        }
    }
}

/// Sequence concatenation is associative.
pub proof fn lemma_seq_add_assoc<T>(a: Seq<T>, b: Seq<T>, c: Seq<T>)
    ensures
        (a + b) + c == a + (b + c),
{
    assert((a + b) + c =~= a + (b + c));
}

/// Copies a board square by square.
pub fn copy_board(v: &Vec<BoardPiece>) -> (r: Vec<BoardPiece>)
    ensures
        r@ == v@,
{
    let mut out: Vec<BoardPiece> = Vec::new();
    let mut i: usize = 0;
    while i < v.len()
        invariant
            0 <= i <= v.len(),
            out@ == v@.subrange(0, i as int),
        decreases v.len() - i,
    {
        out.push(v[i]);
        proof {
            assert(out@ =~= v@.subrange(0, i + 1 as int));
        }
        i = i + 1;
    }
    proof {
        assert(out@ =~= v@);
    }
    out
}

/// Compares two boards square by square.
pub fn boards_equal(a: &Vec<BoardPiece>, b: &Vec<BoardPiece>) -> (r: bool)
    ensures
        r == (a@ =~= b@),
{
    if a.len() != b.len() {
        return false;
    }
    let mut i: usize = 0;
    while i < a.len()
        invariant
            0 <= i <= a.len(),
            a@.len() == b@.len(),
            forall|j: int| 0 <= j < i ==> a@[j] == b@[j],
        decreases a.len() - i,
    {
        if a[i] != b[i] {
            return false;
        }
        i = i + 1;
    }
    true
}

} // verus!
