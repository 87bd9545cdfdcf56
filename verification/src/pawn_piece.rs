//! Pawn move generation: forward pushes, the double step from the home
//! rank, diagonal captures and en passant.

use vstd::prelude::*;

use crate::color::{is_opponent, is_opponent_color};
use crate::geometry::{file_of, lemma_square_decompose, rank_of};
use crate::types::{
    BoardPiece, ChessPieces, Move, MoveType, PieceColor, board_wf, lemma_moves_in_bounds_add,
    lemma_seq_add_assoc, moves_in_bounds, new_move,
};

verus! {

/// A diagonal step from `sq` to `t` would wrap around the board edge.
pub open spec fn file_wraps(sq: int, t: int) -> bool {
    ||| (file_of(sq) == 0 && file_of(t) == 7)
    ||| (file_of(sq) == 7 && file_of(t) == 0)
}

/// Forward moves of a pawn: a single step onto an empty square, and from
/// the home rank a double step across two empty squares. Both carry the
/// `NoCapture` tag.
pub open spec fn pawn_push(b: Seq<BoardPiece>, sq: int, off: int, home_rank: int) -> Seq<Move> {
    let t = sq + off;
    if 0 <= t < 64 && b[t].piece_type == ChessPieces::Empty {
        let single = seq![new_move(sq, t, MoveType::NoCapture)];
        let t2 = sq + 2 * off;
        if rank_of(sq) == home_rank && 0 <= t2 < 64 && b[t2].piece_type == ChessPieces::Empty {
            single + seq![new_move(sq, t2, MoveType::NoCapture)]
        } else {
            single
        }
    } else {
        Seq::empty()
    }
}

/// Diagonal moves of a pawn in one direction: a capture of an enemy
/// occupant, or an en-passant capture onto the recorded target square.
/// Diagonals that wrap around the board edge are suppressed.
pub open spec fn pawn_capture(
    b: Seq<BoardPiece>,
    sq: int,
    off: int,
    color: PieceColor,
    ep: Option<i16>,
) -> Seq<Move> {
    let t = sq + off;
    if 0 <= t < 64 && !file_wraps(sq, t) {
        if is_opponent(b[t].piece_color, color) {
            seq![new_move(sq, t, MoveType::Normal)]
        } else if ep == Some(t as i16) {
            seq![new_move(sq, t, MoveType::EnPassant)]
        } else {
            Seq::empty()
        }
    } else {
        Seq::empty()
    }
}

/// All moves of a pawn of `color` standing on `sq`: the pushes first, then
/// the two diagonal directions. A colorless square yields no moves.
pub open spec fn pawn_moves(
    b: Seq<BoardPiece>,
    sq: int,
    color: PieceColor,
    ep: Option<i16>,
) -> Seq<Move> {
    match color {
        PieceColor::White => pawn_push(b, sq, 8, 1) + pawn_capture(b, sq, 7, color, ep)
            + pawn_capture(b, sq, 9, color, ep),
        PieceColor::Black => pawn_push(b, sq, -8, 6) + pawn_capture(b, sq, -7, color, ep)
            + pawn_capture(b, sq, -9, color, ep),
        PieceColor::NoColor => Seq::empty(),
    }
}

/// Every pawn move references on-board squares only.
pub proof fn lemma_pawn_moves_in_bounds(
    b: Seq<BoardPiece>,
    sq: int,
    color: PieceColor,
    ep: Option<i16>,
)
    requires
        0 <= sq < 64,
    ensures
        moves_in_bounds(pawn_moves(b, sq, color, ep)),
{
    match color {
        PieceColor::White => {
            lemma_moves_in_bounds_add(pawn_push(b, sq, 8, 1), pawn_capture(b, sq, 7, color, ep));
            lemma_moves_in_bounds_add(
                pawn_push(b, sq, 8, 1) + pawn_capture(b, sq, 7, color, ep),
                pawn_capture(b, sq, 9, color, ep),
            );
        },
        PieceColor::Black => {
            lemma_moves_in_bounds_add(pawn_push(b, sq, -8, 6), pawn_capture(b, sq, -7, color, ep));
            lemma_moves_in_bounds_add(
                pawn_push(b, sq, -8, 6) + pawn_capture(b, sq, -7, color, ep),
                pawn_capture(b, sq, -9, color, ep),
            );
        },
        PieceColor::NoColor => {},
    }
}

/// Appends the pawn's forward moves in direction `off`.
fn pawn_push_moves(
    board: &Vec<BoardPiece>,
    start_square: usize,
    off: i16,
    home_rank: i16,
    moves: &mut Vec<Move>,
)
    requires
        board_wf(board@),
        start_square < 64,
        off == 8 || off == -8,
        0 <= home_rank <= 7,
    ensures
        final(moves)@ == old(moves)@ + pawn_push(
            board@,
            start_square as int,
            off as int,
            home_rank as int,
        ),
{
    proof {
        lemma_square_decompose(start_square as int);
    }
    let ghost b = board@;
    let ghost sq = start_square as int;
    let target_square: i16 = start_square as i16 + off;
    if target_square >= 0 && target_square < 64 && board[target_square as usize].piece_type
        == ChessPieces::Empty {
        moves.push(
            Move {
                start_square: start_square as i16,
                target_square,
                move_type: MoveType::NoCapture,
            },
        );
        let start_rank: i16 = (start_square / 8) as i16;
        let double_target_square: i16 = start_square as i16 + 2 * off;
        if start_rank == home_rank && double_target_square >= 0 && double_target_square < 64
            && board[double_target_square as usize].piece_type == ChessPieces::Empty {
            moves.push(
                Move {
                    start_square: start_square as i16,
                    target_square: double_target_square,
                    move_type: MoveType::NoCapture,
                },
            );
            proof {
                assert(moves@ =~= old(moves)@ + pawn_push(b, sq, off as int, home_rank as int));
            }
        } else {
            proof {
                assert(moves@ =~= old(moves)@ + pawn_push(b, sq, off as int, home_rank as int));
            }
        }
    } else {
        proof {
            assert(moves@ =~= old(moves)@ + pawn_push(b, sq, off as int, home_rank as int));
        }
    }
}

/// Appends the pawn's diagonal move in direction `off`, if any.
fn pawn_capture_moves(
    board: &Vec<BoardPiece>,
    start_square: usize,
    off: i16,
    current_player_color: &PieceColor,
    en_passant_target: &Option<i16>,
    moves: &mut Vec<Move>,
)
    requires
        board_wf(board@),
        start_square < 64,
        off == 7 || off == 9 || off == -7 || off == -9,
    ensures
        final(moves)@ == old(moves)@ + pawn_capture(
            board@,
            start_square as int,
            off as int,
            *current_player_color,
            *en_passant_target,
        ),
{
    let ghost b = board@;
    let ghost sq = start_square as int;
    let target_square: i16 = start_square as i16 + off;
    if target_square >= 0 && target_square < 64 {
        let start_file: usize = start_square % 8;
        let target_file: usize = (target_square as usize) % 8;
        if (start_file == 0 && target_file == 7) || (start_file == 7 && target_file == 0) {
            // a wrapped diagonal leaves this file pair unplayable
            proof {
                assert(moves@ =~= old(moves)@ + pawn_capture(
                    b,
                    sq,
                    off as int,
                    *current_player_color,
                    *en_passant_target,
                ));
            }
        } else if is_opponent_color(
            &board[target_square as usize].piece_color,
            current_player_color,
        ) {
            moves.push(
                Move {
                    start_square: start_square as i16,
                    target_square,
                    move_type: MoveType::Normal,
                },
            );
            proof {
                assert(moves@ =~= old(moves)@ + pawn_capture(
                    b,
                    sq,
                    off as int,
                    *current_player_color,
                    *en_passant_target,
                ));
            }
        } else {
            let ep_hit = match en_passant_target {
                Some(e) => *e == target_square,
                None => false,
            };
            if ep_hit {
                moves.push(
                    Move {
                        start_square: start_square as i16,
                        target_square,
                        move_type: MoveType::EnPassant,
                    },
                );
            }
            proof {
                assert(moves@ =~= old(moves)@ + pawn_capture(
                    b,
                    sq,
                    off as int,
                    *current_player_color,
                    *en_passant_target,
                ));
            }
        }
    } else {
        proof {
            assert(moves@ =~= old(moves)@ + pawn_capture(
                b,
                sq,
                off as int,
                *current_player_color,
                *en_passant_target,
            ));
        }
    }
}

/// Appends every pawn move from `start_square`: the single and double
/// pushes, then the two diagonal captures (or en-passant captures).
pub fn generate_pawn_moves(
    start_square: usize,
    board: &Vec<BoardPiece>,
    current_player_color: &PieceColor,
    en_passant_target: &Option<i16>,
    moves: &mut Vec<Move>,
)
    requires
        board_wf(board@),
        start_square < 64,
    ensures
        final(moves)@ == old(moves)@ + pawn_moves(
            board@,
            start_square as int,
            *current_player_color,
            *en_passant_target,
        ),
{
    let ghost b = board@;
    let ghost sq = start_square as int;
    let ghost color = *current_player_color;
    let ghost ep = *en_passant_target;
    match current_player_color {
        PieceColor::White => {
            pawn_push_moves(board, start_square, 8, 1, moves);
            pawn_capture_moves(board, start_square, 7, current_player_color, en_passant_target, moves);
            pawn_capture_moves(board, start_square, 9, current_player_color, en_passant_target, moves);
            proof {
                lemma_seq_add_assoc(
                    old(moves)@,
                    pawn_push(b, sq, 8, 1),
                    pawn_capture(b, sq, 7, color, ep),
                );
                lemma_seq_add_assoc(
                    old(moves)@,
                    pawn_push(b, sq, 8, 1) + pawn_capture(b, sq, 7, color, ep),
                    pawn_capture(b, sq, 9, color, ep),
                );
                assert(moves@ == old(moves)@ + pawn_moves(b, sq, color, ep));
            }
        },
        PieceColor::Black => {
            pawn_push_moves(board, start_square, -8, 6, moves);
            pawn_capture_moves(board, start_square, -7, current_player_color, en_passant_target, moves);
            pawn_capture_moves(board, start_square, -9, current_player_color, en_passant_target, moves);
            proof {
                lemma_seq_add_assoc(
                    old(moves)@,
                    pawn_push(b, sq, -8, 6),
                    pawn_capture(b, sq, -7, color, ep),
                );
                lemma_seq_add_assoc(
                    old(moves)@,
                    pawn_push(b, sq, -8, 6) + pawn_capture(b, sq, -7, color, ep),
                    pawn_capture(b, sq, -9, color, ep),
                );
                assert(moves@ == old(moves)@ + pawn_moves(b, sq, color, ep));
            }
        },
        PieceColor::NoColor => {
            proof {
                assert(moves@ =~= old(moves)@ + pawn_moves(b, sq, color, ep));
            }
        },
    }
}

} // verus!
