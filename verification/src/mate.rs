//! The mate oracle: classifies a position as checkmate, stalemate or
//! normal by exhaustively simulating one ply of replies.

use vstd::prelude::*;

use crate::checks::{check_spec, detect_check};
use crate::chess_state::{
    ChessState, apply_move_board, find_move, make_move, state_wf,
};
use crate::color::{opposite_color, switch_color};
use crate::generate_moves::{generate_moves, scan_moves, scan_pieces};
use crate::geometry::table_wf;
use crate::types::{
    ChessPieces, Move, MoveType, SquaresToEdge, move_in_bounds, moves_in_bounds,
};

verus! {

/// Classification of a position for the side to move.
#[derive(Clone, Copy, Debug, PartialEq, Eq, Structural)]
pub enum Mate {
    Stalemate,
    Checkmate,
    No,
}

/// Trying `mov` from the position escapes check: the applier accepts the
/// requested squares and the mover's king is not attacked on the resulting
/// board. A trial that the applier rejects is conservatively no escape.
pub open spec fn trial_is_escape(state: ChessState, moves: Seq<Move>, mov: Move) -> bool {
    let s = mov.start_square as u32;
    let e = mov.target_square as u32;
    match find_move(moves, s, e) {
        Option::None => false,
        Option::Some(fm) => {
            if fm.move_type == MoveType::NoCapture && state.board@[e as int].piece_type
                != ChessPieces::Empty {
                false
            } else {
                let nb = apply_move_board(state.board@, fm, s as int, e as int);
                !check_spec(
                    scan_pieces(nb, state.color_to_move, 64),
                    scan_moves(
                        nb,
                        opposite_color(state.color_to_move),
                        state.is_able_to_castle,
                        state.en_passant_target,
                        64,
                    ),
                )
            }
        },
    }
}

/// The side to move is in check in the position as it stands: reply moves
/// are generated against the pre-move position.
pub open spec fn in_check_spec(state: ChessState) -> bool {
    check_spec(
        scan_pieces(state.board@, state.color_to_move, 64),
        scan_moves(
            state.board@,
            opposite_color(state.color_to_move),
            state.is_able_to_castle,
            state.en_passant_target,
            64,
        ),
    )
}

/// Some generated move of the side to move escapes check.
pub open spec fn exists_escape(state: ChessState, moves: Seq<Move>) -> bool {
    exists|i: int| 0 <= i < moves.len() && trial_is_escape(state, moves, #[trigger] moves[i])
}

/// Classification of the position: with no escaping move the side to move
/// is checkmated if in check and stalemated otherwise; with an escape the
/// position is normal.
pub open spec fn mate_spec(state: ChessState) -> Mate {
    let moves = scan_moves(
        state.board@,
        state.color_to_move,
        state.is_able_to_castle,
        state.en_passant_target,
        64,
    );
    if !exists_escape(state, moves) {
        if in_check_spec(state) {
            Mate::Checkmate
        } else {
            Mate::Stalemate
        }
    } else {
        Mate::No
    }
}

/// Classifying a position is deterministic: two classifications of the
/// same position agree. (The classifier takes the position by shared
/// borrow, so the position itself is left unmodified.)
pub proof fn lemma_classification_deterministic(state: ChessState, r1: Mate, r2: Mate)
    requires
        r1 == mate_spec(state),
        r2 == mate_spec(state),
    ensures
        r1 == r2,
{
}

/// Applies the trial move to a clone of the position, regenerates both
/// sides, and reports whether the mover's own king is attacked afterwards.
/// A trial that the applier rejects counts as moving into check, so that
/// it is never mistaken for an escape.
fn is_move_into_check(
    friendly_movements: &Vec<Move>,
    fen_state: &ChessState,
    mov: &Move,
    squares_to_edge: &SquaresToEdge,
) -> (r: bool)
    requires
        state_wf(*fen_state),
        moves_in_bounds(friendly_movements@),
        move_in_bounds(*mov),
        table_wf(*squares_to_edge),
    ensures
        r == !trial_is_escape(*fen_state, friendly_movements@, *mov),
{
    match make_move(
        fen_state,
        friendly_movements,
        mov.start_square as u32,
        mov.target_square as u32,
    ) {
        Ok(modified_fen_state) => {
            proof {
                assert(state_wf(modified_fen_state));
            }
            let (friendly_piece_locations, _) = generate_moves(
                &modified_fen_state,
                &modified_fen_state.color_to_move,
                squares_to_edge,
            );
            let reply_color = switch_color(&modified_fen_state.color_to_move);
            let (_, enemy_movements) = generate_moves(
                &modified_fen_state,
                &reply_color,
                squares_to_edge,
            );
            detect_check(&friendly_piece_locations, &enemy_movements)
        },
        Err(_) => true,
    }
}

/// Classifies the position for its side to move by exhaustive one-ply
/// simulation: every pseudo-legal move is applied and the opponent's
/// replies are regenerated; when every trial leaves the mover's king
/// attacked there is no escape.
pub fn detect_mate(fen_state: &ChessState, squares_to_edge: &SquaresToEdge) -> (r: Mate)
    requires
        state_wf(*fen_state),
        table_wf(*squares_to_edge),
    ensures
        r == mate_spec(*fen_state),
{
    let ghost state0 = *fen_state;

    let (friendly_piece_locations, friendly_movements) = generate_moves(
        fen_state,
        &fen_state.color_to_move,
        squares_to_edge,
    );
    let enemy_color = switch_color(&fen_state.color_to_move);
    let (_, enemy_movements) = generate_moves(fen_state, &enemy_color, squares_to_edge);
    let is_in_check = detect_check(&friendly_piece_locations, &enemy_movements);

    let ghost fm = friendly_movements@;
    let mut trapped = true;
    let mut i: usize = 0;
    while i < friendly_movements.len()
        invariant
            0 <= i <= fm.len(),
            state_wf(*fen_state),
            table_wf(*squares_to_edge),
            state0 == *fen_state,
            fm == friendly_movements@,
            moves_in_bounds(fm),
            trapped == !(exists|j: int|
                0 <= j < i && trial_is_escape(state0, fm, #[trigger] fm[j])),
        decreases fm.len() - i,
    {
        let mov = friendly_movements[i];
        proof {
            assert(move_in_bounds(fm[i as int]));
        }
        let into_check = is_move_into_check(
            &friendly_movements,
            fen_state,
            &mov,
            squares_to_edge,
        );
        if !into_check {
            proof {
                assert(trial_is_escape(state0, fm, fm[i as int]));
            }
            trapped = false;
        }
        i = i + 1;
    }

    if trapped && is_in_check {
        Mate::Checkmate
    } else if trapped {
        Mate::Stalemate
    } else {
        Mate::No
    }
}

} // verus!
