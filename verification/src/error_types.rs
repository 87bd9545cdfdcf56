//! Error types of the core and of drivers around it.

use vstd::prelude::*;

verus! {

/// Typed errors of the move applier and its inverse.
#[derive(Clone, Copy, Debug, PartialEq, Eq, Structural)]
pub enum MoveError {
    /// The requested move is absent from the generated list, or a pawn move
    /// tagged `NoCapture` targets an occupied square.
    IllegalMove,
    /// A move referenced a square index off the board; the inverse applier
    /// defends against this and leaves the board untouched.
    OutOfBounds,
}

/// Game-level errors reported by a driver loop around the core.
#[derive(Debug)]
pub enum GameError {
    UserMoveError(String),
    NotationDecoderError(String),
    StateError(String),
    /// The game ended, by checkmate or stalemate.
    End(String),
}

} // verus!
