//! Knight move generation: eight fixed leaps.

use vstd::prelude::*;

use crate::geometry::{leap_move, lemma_leap_move_in_bounds, try_leap};
use crate::types::{
    BoardPiece, Move, board_wf, lemma_moves_in_bounds_add, lemma_seq_add_assoc, moves_in_bounds,
};

verus! {

/// All moves of the knight standing on `sq`, in the fixed scan order of the
/// eight leaps.
pub open spec fn knight_moves(b: Seq<BoardPiece>, sq: int) -> Seq<Move> {
    leap_move(b, sq, -2, -1) + leap_move(b, sq, -1, -2) + leap_move(b, sq, 1, -2) + leap_move(
        b,
        sq,
        2,
        -1,
    ) + leap_move(b, sq, -2, 1) + leap_move(b, sq, -1, 2) + leap_move(b, sq, 1, 2) + leap_move(
        b,
        sq,
        2,
        1,
    )
}

/// Every knight move references on-board squares only.
pub proof fn lemma_knight_moves_in_bounds(b: Seq<BoardPiece>, sq: int)
    requires
        0 <= sq < 64,
    ensures
        moves_in_bounds(knight_moves(b, sq)),
{
    lemma_leap_move_in_bounds(b, sq, -2, -1);
    lemma_leap_move_in_bounds(b, sq, -1, -2);
    lemma_leap_move_in_bounds(b, sq, 1, -2);
    lemma_leap_move_in_bounds(b, sq, 2, -1);
    lemma_leap_move_in_bounds(b, sq, -2, 1);
    lemma_leap_move_in_bounds(b, sq, -1, 2);
    lemma_leap_move_in_bounds(b, sq, 1, 2);
    lemma_leap_move_in_bounds(b, sq, 2, 1);
    let s1 = leap_move(b, sq, -2, -1);
    let s2 = leap_move(b, sq, -1, -2);
    let s3 = leap_move(b, sq, 1, -2);
    let s4 = leap_move(b, sq, 2, -1);
    let s5 = leap_move(b, sq, -2, 1);
    let s6 = leap_move(b, sq, -1, 2);
    let s7 = leap_move(b, sq, 1, 2);
    let s8 = leap_move(b, sq, 2, 1);
    lemma_moves_in_bounds_add(s1, s2);
    lemma_moves_in_bounds_add(s1 + s2, s3);
    lemma_moves_in_bounds_add(s1 + s2 + s3, s4);
    lemma_moves_in_bounds_add(s1 + s2 + s3 + s4, s5);
    lemma_moves_in_bounds_add(s1 + s2 + s3 + s4 + s5, s6);
    lemma_moves_in_bounds_add(s1 + s2 + s3 + s4 + s5 + s6, s7);
    lemma_moves_in_bounds_add(s1 + s2 + s3 + s4 + s5 + s6 + s7, s8);
}

/// Appends every knight leap from `start_square` that lands on the board and
/// not on a piece of the knight's own color.
pub fn generate_knight_moves(start_square: usize, board: &Vec<BoardPiece>, moves: &mut Vec<Move>)
    requires
        board_wf(board@),
        start_square < 64,
    ensures
        final(moves)@ == old(moves)@ + knight_moves(board@, start_square as int),
{
    let ghost b = board@;
    let ghost sq = start_square as int;
    try_leap(board, start_square, -2, -1, moves);
    let ghost mut acc: Seq<Move> = leap_move(b, sq, -2, -1);
    try_leap(board, start_square, -1, -2, moves);
    proof {
        lemma_seq_add_assoc(old(moves)@, acc, leap_move(b, sq, -1, -2));
        acc = acc + leap_move(b, sq, -1, -2);
    }
    try_leap(board, start_square, 1, -2, moves);
    proof {
        lemma_seq_add_assoc(old(moves)@, acc, leap_move(b, sq, 1, -2));
        acc = acc + leap_move(b, sq, 1, -2);
    }
    try_leap(board, start_square, 2, -1, moves);
    proof {
        lemma_seq_add_assoc(old(moves)@, acc, leap_move(b, sq, 2, -1));
        acc = acc + leap_move(b, sq, 2, -1);
    }
    try_leap(board, start_square, -2, 1, moves);
    proof {
        lemma_seq_add_assoc(old(moves)@, acc, leap_move(b, sq, -2, 1));
        acc = acc + leap_move(b, sq, -2, 1);
    }
    try_leap(board, start_square, -1, 2, moves);
    proof {
        lemma_seq_add_assoc(old(moves)@, acc, leap_move(b, sq, -1, 2));
        acc = acc + leap_move(b, sq, -1, 2);
    }
    try_leap(board, start_square, 1, 2, moves);
    proof {
        lemma_seq_add_assoc(old(moves)@, acc, leap_move(b, sq, 1, 2));
        acc = acc + leap_move(b, sq, 1, 2);
    }
    try_leap(board, start_square, 2, 1, moves);
    proof {
        lemma_seq_add_assoc(old(moves)@, acc, leap_move(b, sq, 2, 1));
        acc = acc + leap_move(b, sq, 2, 1);
    }
    proof {
        assert(acc == knight_moves(b, sq));
        assert(moves@ == old(moves)@ + knight_moves(b, sq));
    }
}

} // verus!
