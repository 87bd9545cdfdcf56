//! A pseudo-legal chess move-generation and position-legality core.
//!
//! Given a board position and rules state (side to move, castling rights,
//! en-passant target), the library produces candidate moves for the side to
//! move, decides whether a king is attacked, finds pinned pieces, applies
//! moves as pure state transitions, and classifies terminal positions
//! (checkmate, stalemate, normal) by exhaustively simulating replies.

pub mod types;
pub mod color;
pub mod geometry;
pub mod sliding_piece;
pub mod knight_piece;
pub mod king_piece;
pub mod pawn_piece;
pub mod error_types;
pub mod chess_state;
pub mod generate_moves;
pub mod checks;
pub mod pin;
pub mod mate;
pub mod fen;
