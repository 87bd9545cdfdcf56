//! Board geometry: ranks, files, ray directions and the steps-to-edge table.

use vstd::prelude::*;

use crate::types::{
    BoardPiece, Move, MoveType, SquaresToEdge, board_wf, moves_in_bounds, new_move,
};

verus! {

/// Rank (row) of a square index, counted from the bottom of the board.
pub open spec fn rank_of(sq: int) -> int {
    sq / 8
}

/// File (column) of a square index.
pub open spec fn file_of(sq: int) -> int {
    sq % 8
}

/// Index offset of one step in ray direction `d`.
/// Directions are ordered north, south, west, east, north-west, south-east,
/// north-east, south-west.
pub open spec fn dir_offset(d: int) -> int {
    if d == 0 {
        8
    } else if d == 1 {
        -8
    } else if d == 2 {
        -1
    } else if d == 3 {
        1
    } else if d == 4 {
        7
    } else if d == 5 {
        -7
    } else if d == 6 {
        9
    } else {
        -9
    }
}

pub open spec fn spec_min(a: int, b: int) -> int {
    if a <= b {
        a
    } else {
        b
    }
}

/// Number of steps from a square to the edge of the board in direction `d`.
pub open spec fn edge_dist(sq: int, d: int) -> int {
    let north = 7 - rank_of(sq);
    let south = rank_of(sq);
    let west = file_of(sq);
    let east = 7 - file_of(sq);
    if d == 0 {
        north
    } else if d == 1 {
        south
    } else if d == 2 {
        west
    } else if d == 3 {
        east
    } else if d == 4 {
        spec_min(north, west)
    } else if d == 5 {
        spec_min(south, east)
    } else if d == 6 {
        spec_min(north, east)
    } else {
        spec_min(south, west)
    }
}

/// The table holds the edge distance of every square and direction.
pub open spec fn table_wf(t: SquaresToEdge) -> bool {
    &&& t@.len() == 64
    &&& forall|s: int| 0 <= s < 64 ==> (#[trigger] t@[s])@.len() == 8
    &&& forall|s: int, d: int|
        0 <= s < 64 && 0 <= d < 8 ==> (#[trigger] t@[s]@[d]) as int == edge_dist(s, d)
}

/// Rank and file of an on-board square are both between 0 and 7, and
/// together they determine the square.
pub proof fn lemma_square_decompose(sq: int)
    requires
        0 <= sq < 64,
    ensures
        0 <= rank_of(sq) < 8,
        0 <= file_of(sq) < 8,
        sq == 8 * rank_of(sq) + file_of(sq),
{
}

/// Edge distances of on-board squares lie between 0 and 7.
pub proof fn lemma_edge_dist_bounds(sq: int, d: int)
    requires
        0 <= sq < 64,
        0 <= d < 8,
    ensures
        0 <= edge_dist(sq, d) <= 7,
{
    lemma_square_decompose(sq);
}

/// Stepping at most the edge distance along a ray stays on the board.
pub proof fn lemma_step_on_board(sq: int, d: int, k: int)
    requires
        0 <= sq < 64,
        0 <= d < 8,
        1 <= k <= edge_dist(sq, d),
    ensures
        0 <= sq + dir_offset(d) * k < 64,
{
    lemma_square_decompose(sq);
    let r = rank_of(sq);
    let f = file_of(sq);
    if d == 0 {
        assert(sq + 8 * k == 8 * (r + k) + f);
    } else if d == 1 {
        assert(sq + (-8) * k == 8 * (r - k) + f);
    } else if d == 2 {
        assert(sq + (-1) * k == 8 * r + (f - k));
    } else if d == 3 {
        assert(sq + 1 * k == 8 * r + (f + k));
    } else if d == 4 {
        assert(sq + 7 * k == 8 * (r + k) + (f - k));
    } else if d == 5 {
        assert(sq + (-7) * k == 8 * (r - k) + (f + k));
    } else if d == 6 {
        assert(sq + 9 * k == 8 * (r + k) + (f + k));
    } else {
        assert(sq + (-9) * k == 8 * (r - k) + (f - k));
    }
}

/// Target square of a leap of `dr` ranks and `df` files.
pub open spec fn leap_target(sq: int, dr: int, df: int) -> int {
    (rank_of(sq) + dr) * 8 + file_of(sq) + df
}

/// The leap lands on the board.
pub open spec fn leap_on_board(sq: int, dr: int, df: int) -> bool {
    &&& 0 <= rank_of(sq) + dr < 8
    &&& 0 <= file_of(sq) + df < 8
}

/// The moves (none or one) that a leap from `sq` contributes: the landing
/// square must be on the board and must not hold a piece of the mover's
/// color.
pub open spec fn leap_move(b: Seq<BoardPiece>, sq: int, dr: int, df: int) -> Seq<Move> {
    if leap_on_board(sq, dr, df) && b[leap_target(sq, dr, df)].piece_color
        != b[sq].piece_color {
        seq![new_move(sq, leap_target(sq, dr, df), MoveType::Normal)]
    } else {
        Seq::empty()
    }
}

/// A leap target that is on the board is a valid square index.
pub proof fn lemma_leap_target_on_board(sq: int, dr: int, df: int)
    requires
        0 <= sq < 64,
        leap_on_board(sq, dr, df),
    ensures
        0 <= leap_target(sq, dr, df) < 64,
        rank_of(leap_target(sq, dr, df)) == rank_of(sq) + dr,
        file_of(leap_target(sq, dr, df)) == file_of(sq) + df,
{
    lemma_square_decompose(sq);
}

/// Every leap move references on-board squares only.
pub proof fn lemma_leap_move_in_bounds(b: Seq<BoardPiece>, sq: int, dr: int, df: int)
    requires
        0 <= sq < 64,
    ensures
        moves_in_bounds(leap_move(b, sq, dr, df)),
{
    if leap_on_board(sq, dr, df) {
        lemma_leap_target_on_board(sq, dr, df);
    }
}

/// Appends the leap's move, if any, to the move list.
pub(crate) fn try_leap(
    board: &Vec<BoardPiece>,
    start_square: usize,
    dr: i16,
    df: i16,
    moves: &mut Vec<Move>,
)
    requires
        board_wf(board@),
        start_square < 64,
        -2 <= dr <= 2,
        -2 <= df <= 2,
    ensures
        final(moves)@ == old(moves)@ + leap_move(
            board@,
            start_square as int,
            dr as int,
            df as int,
        ),
{
    proof {
        lemma_square_decompose(start_square as int);
    }
    let start_rank: i16 = (start_square / 8) as i16;
    let start_file: i16 = (start_square % 8) as i16;
    let new_rank: i16 = start_rank + dr;
    let new_file: i16 = start_file + df;
    if new_rank >= 0 && new_rank < 8 && new_file >= 0 && new_file < 8 {
        proof {
            lemma_leap_target_on_board(start_square as int, dr as int, df as int);
        }
        let target_square: i16 = new_rank * 8 + new_file;
        let target_piece = board[target_square as usize];
        let start_piece = board[start_square];
        if start_piece.piece_color != target_piece.piece_color {
            moves.push(
                Move {
                    start_square: start_square as i16,
                    target_square,
                    move_type: MoveType::Normal,
                },
            );
            proof {
                assert(moves@ =~= old(moves)@ + leap_move(
                    board@,
                    start_square as int,
                    dr as int,
                    df as int,
                ));
            }
        } else {
            proof {
                assert(moves@ =~= old(moves)@ + leap_move(
                    board@,
                    start_square as int,
                    dr as int,
                    df as int,
                ));
            }
        }
    } else {
        proof {
            assert(moves@ =~= old(moves)@ + leap_move(
                board@,
                start_square as int,
                dr as int,
                df as int,
            ));
        }
    }
}

/// Computes the steps-to-edge table for every square and ray direction.
pub fn precompute_squares_to_edge() -> (r: SquaresToEdge)
    ensures
        table_wf(r),
{
    let mut sq_to_edge: Vec<Vec<i16>> = Vec::new();
    let mut square_index: usize = 0;
    while square_index < 64
        invariant
            0 <= square_index <= 64,
            sq_to_edge@.len() == square_index,
            forall|s: int| 0 <= s < square_index ==> (#[trigger] sq_to_edge@[s])@.len() == 8,
            forall|s: int, d: int|
                0 <= s < square_index && 0 <= d < 8 ==> (#[trigger] sq_to_edge@[s]@[d]) as int
                    == edge_dist(s, d),
        decreases 64 - square_index,
    {
        proof {
            lemma_square_decompose(square_index as int);
        }
        let rank: i16 = (square_index / 8) as i16;
        let file: i16 = (square_index % 8) as i16;

        let north: i16 = 7 - rank;
        let south: i16 = rank;
        let west: i16 = file;
        let east: i16 = 7 - file;

        let nw: i16 = if north <= west { north } else { west };
        let se: i16 = if south <= east { south } else { east };
        let ne: i16 = if north <= east { north } else { east };
        let sw: i16 = if south <= west { south } else { west };

        let mut row: Vec<i16> = Vec::new();
        row.push(north);
        row.push(south);
        row.push(west);
        row.push(east);
        row.push(nw);
        row.push(se);
        row.push(ne);
        row.push(sw);
        sq_to_edge.push(row);
        square_index = square_index + 1;
    }
    sq_to_edge
}

} // verus!
