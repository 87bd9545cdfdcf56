//! King move generation: eight adjacent leaps plus castling.

use vstd::prelude::*;

use crate::geometry::{leap_move, lemma_leap_move_in_bounds, lemma_square_decompose, try_leap};
use crate::types::{
    BoardPiece, Castle, ChessPieces, Move, MoveType, board_wf, lemma_moves_in_bounds_add,
    lemma_seq_add_assoc, moves_in_bounds, new_move,
};

verus! {

/// First square of the rank that `sq` stands on.
pub open spec fn rank_start_of(sq: int) -> int {
    8 * (sq / 8)
}

/// Queenside castling is available: the right is held, the rook stands on
/// the near corner of the king's rank, and the three squares between are
/// empty.
pub open spec fn castle_queenside_ok(b: Seq<BoardPiece>, sq: int, c: Castle) -> bool {
    let rs = rank_start_of(sq);
    &&& c.queenside
    &&& b[rs].piece_type == ChessPieces::Rooks
    &&& b[rs + 1].piece_type == ChessPieces::Empty
    &&& b[rs + 2].piece_type == ChessPieces::Empty
    &&& b[rs + 3].piece_type == ChessPieces::Empty
}

/// Kingside castling is available: the right is held, the rook stands on
/// the far corner of the king's rank, and the two squares between are empty.
pub open spec fn castle_kingside_ok(b: Seq<BoardPiece>, sq: int, c: Castle) -> bool {
    let rs = rank_start_of(sq);
    &&& c.kingside
    &&& b[rs + 5].piece_type == ChessPieces::Empty
    &&& b[rs + 6].piece_type == ChessPieces::Empty
    &&& b[rs + 7].piece_type == ChessPieces::Rooks
}

/// The castle moves of the king on `sq`: two squares toward the rook,
/// queenside first.
pub open spec fn castle_moves(b: Seq<BoardPiece>, sq: int, c: Castle) -> Seq<Move> {
    (if castle_queenside_ok(b, sq, c) {
        seq![new_move(sq, sq - 2, MoveType::Castle)]
    } else {
        Seq::empty()
    }) + (if castle_kingside_ok(b, sq, c) {
        seq![new_move(sq, sq + 2, MoveType::Castle)]
    } else {
        Seq::empty()
    })
}

/// The eight adjacent leaps of the king on `sq`, in fixed scan order.
pub open spec fn king_leap_moves(b: Seq<BoardPiece>, sq: int) -> Seq<Move> {
    leap_move(b, sq, -1, -1) + leap_move(b, sq, -1, 0) + leap_move(b, sq, -1, 1) + leap_move(
        b,
        sq,
        0,
        -1,
    ) + leap_move(b, sq, 0, 1) + leap_move(b, sq, 1, -1) + leap_move(b, sq, 1, 0) + leap_move(
        b,
        sq,
        1,
        1,
    )
}

/// All moves of the king standing on `sq`: castle moves first, then the
/// eight adjacent leaps.
pub open spec fn king_moves(b: Seq<BoardPiece>, sq: int, c: Castle) -> Seq<Move> {
    castle_moves(b, sq, c) + king_leap_moves(b, sq)
}

/// Every move of a king standing on `sq` references on-board squares only.
/// The castle patterns demand empty squares and a rook where they look, so
/// a square carrying the king itself can never fulfil one in a way that
/// would push a castle target off the board.
pub proof fn lemma_king_moves_in_bounds(b: Seq<BoardPiece>, sq: int, c: Castle)
    requires
        board_wf(b),
        0 <= sq < 64,
        b[sq].piece_type == ChessPieces::Kings,
    ensures
        moves_in_bounds(king_moves(b, sq, c)),
{
    lemma_square_decompose(sq);
    let rs = rank_start_of(sq);
    assert(rs <= sq < rs + 8);
    if castle_queenside_ok(b, sq, c) {
        assert(sq >= rs + 4);
    }
    if castle_kingside_ok(b, sq, c) {
        assert(sq <= rs + 4);
    }
    assert(moves_in_bounds(castle_moves(b, sq, c)));
    lemma_leap_move_in_bounds(b, sq, -1, -1);
    lemma_leap_move_in_bounds(b, sq, -1, 0);
    lemma_leap_move_in_bounds(b, sq, -1, 1);
    lemma_leap_move_in_bounds(b, sq, 0, -1);
    lemma_leap_move_in_bounds(b, sq, 0, 1);
    lemma_leap_move_in_bounds(b, sq, 1, -1);
    lemma_leap_move_in_bounds(b, sq, 1, 0);
    lemma_leap_move_in_bounds(b, sq, 1, 1);
    let s1 = leap_move(b, sq, -1, -1);
    let s2 = leap_move(b, sq, -1, 0);
    let s3 = leap_move(b, sq, -1, 1);
    let s4 = leap_move(b, sq, 0, -1);
    let s5 = leap_move(b, sq, 0, 1);
    let s6 = leap_move(b, sq, 1, -1);
    let s7 = leap_move(b, sq, 1, 0);
    let s8 = leap_move(b, sq, 1, 1);
    lemma_moves_in_bounds_add(s1, s2);
    lemma_moves_in_bounds_add(s1 + s2, s3);
    lemma_moves_in_bounds_add(s1 + s2 + s3, s4);
    lemma_moves_in_bounds_add(s1 + s2 + s3 + s4, s5);
    lemma_moves_in_bounds_add(s1 + s2 + s3 + s4 + s5, s6);
    lemma_moves_in_bounds_add(s1 + s2 + s3 + s4 + s5 + s6, s7);
    lemma_moves_in_bounds_add(s1 + s2 + s3 + s4 + s5 + s6 + s7, s8);
    lemma_moves_in_bounds_add(castle_moves(b, sq, c), king_leap_moves(b, sq));
}

/// Inspects the king's back rank and reports whether queenside and kingside
/// castling are available.
pub fn check_castle_condition(
    board: &Vec<BoardPiece>,
    start_square: usize,
    is_able_to_castle: &Castle,
) -> (r: (bool, bool))
    requires
        board_wf(board@),
        start_square < 64,
    ensures
        r.0 == castle_queenside_ok(board@, start_square as int, *is_able_to_castle),
        r.1 == castle_kingside_ok(board@, start_square as int, *is_able_to_castle),
{
    proof {
        lemma_square_decompose(start_square as int);
    }
    let rank_start: usize = (start_square / 8) * 8;
    let queenside = is_able_to_castle.queenside && board[rank_start].piece_type
        == ChessPieces::Rooks && board[rank_start + 1].piece_type == ChessPieces::Empty
        && board[rank_start + 2].piece_type == ChessPieces::Empty && board[rank_start
        + 3].piece_type == ChessPieces::Empty;
    let kingside = is_able_to_castle.kingside && board[rank_start + 5].piece_type
        == ChessPieces::Empty && board[rank_start + 6].piece_type == ChessPieces::Empty
        && board[rank_start + 7].piece_type == ChessPieces::Rooks;
    (queenside, kingside)
}

/// Appends the king's castle moves, then its eight adjacent leaps.
pub fn generate_king_moves(
    start_square: usize,
    board: &Vec<BoardPiece>,
    moves: &mut Vec<Move>,
    is_able_to_castle: &Castle,
)
    requires
        board_wf(board@),
        start_square < 64,
    ensures
        final(moves)@ == old(moves)@ + king_moves(
            board@,
            start_square as int,
            *is_able_to_castle,
        ),
{
    let (queenside, kingside) = check_castle_condition(board, start_square, is_able_to_castle);
    if queenside {
        moves.push(
            Move {
                start_square: start_square as i16,
                target_square: start_square as i16 - 2,
                move_type: MoveType::Castle,
            },
        );
    }
    if kingside {
        moves.push(
            Move {
                start_square: start_square as i16,
                target_square: start_square as i16 + 2,
                move_type: MoveType::Castle,
            },
        );
    }
    proof {
        assert(moves@ =~= old(moves)@ + castle_moves(
            board@,
            start_square as int,
            *is_able_to_castle,
        ));
    }
    let ghost b = board@;
    let ghost sq = start_square as int;
    let ghost after_castles = moves@;
    try_leap(board, start_square, -1, -1, moves);
    let ghost mut acc: Seq<Move> = leap_move(b, sq, -1, -1);
    try_leap(board, start_square, -1, 0, moves);
    proof {
        lemma_seq_add_assoc(after_castles, acc, leap_move(b, sq, -1, 0));
        acc = acc + leap_move(b, sq, -1, 0);
    }
    try_leap(board, start_square, -1, 1, moves);
    proof {
        lemma_seq_add_assoc(after_castles, acc, leap_move(b, sq, -1, 1));
        acc = acc + leap_move(b, sq, -1, 1);
    }
    try_leap(board, start_square, 0, -1, moves);
    proof {
        lemma_seq_add_assoc(after_castles, acc, leap_move(b, sq, 0, -1));
        acc = acc + leap_move(b, sq, 0, -1);
    }
    try_leap(board, start_square, 0, 1, moves);
    proof {
        lemma_seq_add_assoc(after_castles, acc, leap_move(b, sq, 0, 1));
        acc = acc + leap_move(b, sq, 0, 1);
    }
    try_leap(board, start_square, 1, -1, moves);
    proof {
        lemma_seq_add_assoc(after_castles, acc, leap_move(b, sq, 1, -1));
        acc = acc + leap_move(b, sq, 1, -1);
    }
    try_leap(board, start_square, 1, 0, moves);
    proof {
        lemma_seq_add_assoc(after_castles, acc, leap_move(b, sq, 1, 0));
        acc = acc + leap_move(b, sq, 1, 0);
    }
    try_leap(board, start_square, 1, 1, moves);
    proof {
        lemma_seq_add_assoc(after_castles, acc, leap_move(b, sq, 1, 1));
        acc = acc + leap_move(b, sq, 1, 1);
    }
    proof {
        assert(acc == king_leap_moves(b, sq));
        assert(moves@ == after_castles + king_leap_moves(b, sq));
        lemma_seq_add_assoc(
            old(moves)@,
            castle_moves(b, sq, *is_able_to_castle),
            king_leap_moves(b, sq),
        );
        assert(moves@ == old(moves)@ + king_moves(b, sq, *is_able_to_castle));
    }
}

} // verus!
