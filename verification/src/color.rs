//! Color comparisons shared by all move generators.

use vstd::prelude::*;

use crate::types::PieceColor;

verus! {

/// `a` and `b` are opposing real colors (white against black).
pub open spec fn is_opponent(a: PieceColor, b: PieceColor) -> bool {
    ||| (a == PieceColor::White && b == PieceColor::Black)
    ||| (a == PieceColor::Black && b == PieceColor::White)
}

/// The color of the other side; colorless stays colorless.
pub open spec fn opposite_color(c: PieceColor) -> PieceColor {
    match c {
        PieceColor::White => PieceColor::Black,
        PieceColor::Black => PieceColor::White,
        PieceColor::NoColor => PieceColor::NoColor,
    }
}

/// Checks whether two squares carry the same color.
pub fn is_color(piece_color: &PieceColor, other_piece_color: &PieceColor) -> (r: bool)
    ensures
        r == (*piece_color == *other_piece_color),
{
    *piece_color == *other_piece_color
}

/// Checks whether two squares carry opposing colors.
pub fn is_opponent_color(piece_color: &PieceColor, other_piece_color: &PieceColor) -> (r: bool)
    ensures
        r == is_opponent(*piece_color, *other_piece_color),
{
    match piece_color {
        PieceColor::White => *other_piece_color == PieceColor::Black,
        PieceColor::Black => *other_piece_color == PieceColor::White,
        PieceColor::NoColor => false,
    }
}

/// Checks whether a square carries any color at all.
pub fn is_not_empty(piece_color: &PieceColor) -> (r: bool)
    ensures
        r == (*piece_color != PieceColor::NoColor),
{
    *piece_color != PieceColor::NoColor
}

/// Returns the color of the other side.
pub fn switch_color(color: &PieceColor) -> (r: PieceColor)
    ensures
        r == opposite_color(*color),
{
    match color {
        PieceColor::White => PieceColor::Black,
        PieceColor::Black => PieceColor::White,
        PieceColor::NoColor => PieceColor::NoColor,
    }
}

} // verus!
