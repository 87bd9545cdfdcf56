//! The position scanner: walks all 64 squares in ascending order and
//! dispatches every friendly piece to its move generator.

use vstd::prelude::*;

use crate::chess_state::{ChessState, state_wf};
use crate::color::is_color;
use crate::geometry::table_wf;
use crate::king_piece::{generate_king_moves, king_moves, lemma_king_moves_in_bounds};
use crate::knight_piece::{generate_knight_moves, knight_moves, lemma_knight_moves_in_bounds};
use crate::pawn_piece::{generate_pawn_moves, lemma_pawn_moves_in_bounds, pawn_moves};
use crate::sliding_piece::{
    generate_sliding_pieces, lemma_slider_moves_in_bounds, slider_moves,
};
use crate::types::{
    BoardPiece, Castle, ChessPieces, Move, PieceColor, SquaresToEdge, lemma_moves_in_bounds_add,
    moves_in_bounds,
};

pub use crate::geometry::precompute_squares_to_edge;

verus! {

/// The piece record that the scanner takes from one square: the kind and
/// the square, when a piece of the scanned color stands there.
pub open spec fn square_entry(b: Seq<BoardPiece>, color: PieceColor, sq: int) -> Seq<
    (ChessPieces, usize),
> {
    if b[sq].piece_type != ChessPieces::Empty && b[sq].piece_color == color {
        seq![(b[sq].piece_type, sq as usize)]
    } else {
        Seq::empty()
    }
}

/// The moves that the scanner takes from one square: the square's piece is
/// dispatched to the generator of its kind.
pub open spec fn square_moves(
    b: Seq<BoardPiece>,
    color: PieceColor,
    castle: Castle,
    ep: Option<i16>,
    sq: int,
) -> Seq<Move> {
    if b[sq].piece_type != ChessPieces::Empty && b[sq].piece_color == color {
        match b[sq].piece_type {
            ChessPieces::Kings => king_moves(b, sq, castle),
            ChessPieces::Knights => knight_moves(b, sq),
            ChessPieces::Bishops => slider_moves(b, sq),
            ChessPieces::Queens => slider_moves(b, sq),
            ChessPieces::Rooks => slider_moves(b, sq),
            ChessPieces::Pawns => pawn_moves(b, sq, color, ep),
            ChessPieces::Empty => Seq::empty(),
        }
    } else {
        Seq::empty()
    }
}

/// Piece records of the first `n` squares, in ascending square order.
pub open spec fn scan_pieces(b: Seq<BoardPiece>, color: PieceColor, n: int) -> Seq<
    (ChessPieces, usize),
>
    decreases n,
{
    if n <= 0 {
        Seq::empty()
    } else {
        scan_pieces(b, color, n - 1) + square_entry(b, color, n - 1)
    }
}

/// Moves of the first `n` squares, in ascending square order.
pub open spec fn scan_moves(
    b: Seq<BoardPiece>,
    color: PieceColor,
    castle: Castle,
    ep: Option<i16>,
    n: int,
) -> Seq<Move>
    decreases n,
{
    if n <= 0 {
        Seq::empty()
    } else {
        scan_moves(b, color, castle, ep, n - 1) + square_moves(b, color, castle, ep, n - 1)
    }
}

/// All piece records that scanning a position for `color` yields.
pub open spec fn generated_pieces(state: ChessState, color: PieceColor) -> Seq<
    (ChessPieces, usize),
> {
    scan_pieces(state.board@, color, 64)
}

/// All pseudo-legal moves that scanning a position for `color` yields.
pub open spec fn generated_moves(state: ChessState, color: PieceColor) -> Seq<Move> {
    scan_moves(state.board@, color, state.is_able_to_castle, state.en_passant_target, 64)
}

/// The moves taken from one square reference on-board squares only.
proof fn lemma_square_moves_in_bounds(
    b: Seq<BoardPiece>,
    color: PieceColor,
    castle: Castle,
    ep: Option<i16>,
    sq: int,
)
    requires
        b.len() == 64,
        0 <= sq < 64,
    ensures
        moves_in_bounds(square_moves(b, color, castle, ep, sq)),
{
    if b[sq].piece_type != ChessPieces::Empty && b[sq].piece_color == color {
        match b[sq].piece_type {
            ChessPieces::Kings => lemma_king_moves_in_bounds(b, sq, castle),
            ChessPieces::Knights => lemma_knight_moves_in_bounds(b, sq),
            ChessPieces::Bishops => lemma_slider_moves_in_bounds(b, sq, 4, 8),
            ChessPieces::Queens => lemma_slider_moves_in_bounds(b, sq, 0, 8),
            ChessPieces::Rooks => lemma_slider_moves_in_bounds(b, sq, 0, 4),
            ChessPieces::Pawns => lemma_pawn_moves_in_bounds(b, sq, color, ep),
            ChessPieces::Empty => {},
        }
    }
}

/// Every move of a scan references on-board squares only.
pub proof fn lemma_scan_moves_in_bounds(
    b: Seq<BoardPiece>,
    color: PieceColor,
    castle: Castle,
    ep: Option<i16>,
    n: int,
)
    requires
        b.len() == 64,
        n <= 64,
    ensures
        moves_in_bounds(scan_moves(b, color, castle, ep, n)),
    decreases n,
{
    if n <= 0 {
    } else {
        lemma_scan_moves_in_bounds(b, color, castle, ep, n - 1);
        lemma_square_moves_in_bounds(b, color, castle, ep, n - 1);
        lemma_moves_in_bounds_add(
            scan_moves(b, color, castle, ep, n - 1),
            square_moves(b, color, castle, ep, n - 1),
        );
    }
}

/// Scans all 64 squares in ascending order; for every square occupied by a
/// piece of the requested color it records the piece and appends the
/// piece's moves.
pub fn generate_moves(
    fen_state: &ChessState,
    current_player_color: &PieceColor,
    sqs_to_edge: &SquaresToEdge,
) -> (r: (Vec<(ChessPieces, usize)>, Vec<Move>))
    requires
        state_wf(*fen_state),
        table_wf(*sqs_to_edge),
    ensures
        r.0@ == generated_pieces(*fen_state, *current_player_color),
        r.1@ == generated_moves(*fen_state, *current_player_color),
        moves_in_bounds(r.1@),
{
    let ghost b = fen_state.board@;
    let ghost color = *current_player_color;
    let ghost castle = fen_state.is_able_to_castle;
    let ghost ep = fen_state.en_passant_target;

    let mut pieces: Vec<(ChessPieces, usize)> = Vec::new();
    let mut moves: Vec<Move> = Vec::new();

    let mut start_square: usize = 0;
    while start_square < 64
        invariant
            0 <= start_square <= 64,
            state_wf(*fen_state),
            table_wf(*sqs_to_edge),
            b == fen_state.board@,
            color == *current_player_color,
            castle == fen_state.is_able_to_castle,
            ep == fen_state.en_passant_target,
            pieces@ == scan_pieces(b, color, start_square as int),
            moves@ == scan_moves(b, color, castle, ep, start_square as int),
        decreases 64 - start_square,
    {
        let ghost moves_before = moves@;
        let piece = fen_state.board[start_square];
        if piece.piece_type != ChessPieces::Empty && is_color(
            &piece.piece_color,
            current_player_color,
        ) {
            pieces.push((piece.piece_type, start_square));
            match piece.piece_type {
                ChessPieces::Kings => generate_king_moves(
                    start_square,
                    &fen_state.board,
                    &mut moves,
                    &fen_state.is_able_to_castle,
                ),
                ChessPieces::Knights => generate_knight_moves(
                    start_square,
                    &fen_state.board,
                    &mut moves,
                ),
                ChessPieces::Bishops | ChessPieces::Queens | ChessPieces::Rooks => {
                    generate_sliding_pieces(start_square, &fen_state.board, &mut moves, sqs_to_edge)
                },
                ChessPieces::Pawns => generate_pawn_moves(
                    start_square,
                    &fen_state.board,
                    current_player_color,
                    &fen_state.en_passant_target,
                    &mut moves,
                ),
                ChessPieces::Empty => {},
            }
        }
        proof {
            assert(pieces@ =~= scan_pieces(b, color, start_square as int + 1));
            assert(moves@ == moves_before + square_moves(b, color, castle, ep, start_square as int)
                || moves@ =~= moves_before + square_moves(b, color, castle, ep, start_square as int));
            assert(moves@ =~= scan_moves(b, color, castle, ep, start_square as int + 1));
        }
        start_square = start_square + 1;
    }
    proof {
        lemma_scan_moves_in_bounds(b, color, castle, ep, 64);
    }
    (pieces, moves)
}

} // verus!
