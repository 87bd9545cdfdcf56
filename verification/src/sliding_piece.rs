//! Ray move generation for the sliding pieces: bishops, rooks and queens.

use vstd::prelude::*;

use crate::color::{is_opponent, is_opponent_color};
use crate::geometry::{
    dir_offset, edge_dist, lemma_edge_dist_bounds, lemma_step_on_board, table_wf,
};
use crate::types::{
    BoardPiece, ChessPieces, Move, MoveType, PieceColor, SquaresToEdge, board_pieces_wf, board_wf,
    lemma_moves_in_bounds_add, move_in_bounds, moves_in_bounds, new_move,
};

verus! {

/// First ray direction scanned by a slider of the given kind.
pub open spec fn slider_dir_lo(k: ChessPieces) -> int {
    if k == ChessPieces::Bishops {
        4
    } else {
        0
    }
}

/// One past the last ray direction scanned by a slider of the given kind.
pub open spec fn slider_dir_hi(k: ChessPieces) -> int {
    if k == ChessPieces::Rooks {
        4
    } else {
        8
    }
}

/// The ray from `sq` in direction `d` continues past step `i` (0-based):
/// the square one step further holds neither a friendly nor an enemy piece.
pub open spec fn pass_through(b: Seq<BoardPiece>, sq: int, d: int, i: int) -> bool {
    let t = sq + dir_offset(d) * (i + 1);
    &&& b[t].piece_color != b[sq].piece_color
    &&& !is_opponent(b[t].piece_color, b[sq].piece_color)
}

/// Moves emitted along the ray from `sq` in direction `d`, starting at step
/// `i`: empty squares are entered and the scan continues, an enemy square is
/// entered and the scan stops, a friendly square stops the scan at once.
pub open spec fn ray_moves(b: Seq<BoardPiece>, sq: int, d: int, i: int) -> Seq<Move>
    decreases edge_dist(sq, d) - i,
{
    if i >= edge_dist(sq, d) {
        Seq::empty()
    } else {
        let t = sq + dir_offset(d) * (i + 1);
        if b[t].piece_color == b[sq].piece_color {
            Seq::empty()
        } else if is_opponent(b[t].piece_color, b[sq].piece_color) {
            seq![new_move(sq, t, MoveType::Normal)]
        } else {
            seq![new_move(sq, t, MoveType::Normal)] + ray_moves(b, sq, d, i + 1)
        }
    }
}

/// The moves of the first `n` steps of a ray, all of which pass through.
pub open spec fn ray_prefix(b: Seq<BoardPiece>, sq: int, d: int, n: int) -> Seq<Move> {
    Seq::new(n as nat, |j: int| new_move(sq, sq + dir_offset(d) * (j + 1), MoveType::Normal))
}

/// If the first `n` steps of a ray pass through, the ray's moves are those
/// `n` entering moves followed by whatever the ray emits from step `n` on.
pub proof fn lemma_ray_prefix(b: Seq<BoardPiece>, sq: int, d: int, n: int)
    requires
        0 <= n <= edge_dist(sq, d),
        forall|j: int| 0 <= j < n ==> pass_through(b, sq, d, j),
    ensures
        ray_moves(b, sq, d, 0) == ray_prefix(b, sq, d, n) + ray_moves(b, sq, d, n),
    decreases n,
{
    if n == 0 {
        assert(ray_prefix(b, sq, d, 0) + ray_moves(b, sq, d, 0) =~= ray_moves(b, sq, d, 0));
    } else {
        lemma_ray_prefix(b, sq, d, n - 1);
        assert(pass_through(b, sq, d, n - 1));
        assert(ray_moves(b, sq, d, n - 1) == seq![
            new_move(sq, sq + dir_offset(d) * n, MoveType::Normal),
        ] + ray_moves(b, sq, d, n));
        assert(ray_prefix(b, sq, d, n - 1) + (seq![
            new_move(sq, sq + dir_offset(d) * n, MoveType::Normal),
        ] + ray_moves(b, sq, d, n)) =~= ray_prefix(b, sq, d, n) + ray_moves(b, sq, d, n));
    }
}

/// Moves of all rays with directions in `[lo, hi)`, in direction order.
pub open spec fn slider_dirs_moves(b: Seq<BoardPiece>, sq: int, lo: int, hi: int) -> Seq<Move>
    decreases hi - lo,
{
    if hi <= lo {
        Seq::empty()
    } else {
        slider_dirs_moves(b, sq, lo, hi - 1) + ray_moves(b, sq, hi - 1, 0)
    }
}

/// All moves of the slider standing on `sq`: rooks scan the four axis
/// directions, bishops the four diagonals, queens all eight.
pub open spec fn slider_moves(b: Seq<BoardPiece>, sq: int) -> Seq<Move> {
    slider_dirs_moves(
        b,
        sq,
        slider_dir_lo(b[sq].piece_type),
        slider_dir_hi(b[sq].piece_type),
    )
}

/// Every move of a ray enters the square reached by as many steps as its
/// position in the ray, and every earlier step passed through.
proof fn lemma_ray_index(b: Seq<BoardPiece>, sq: int, d: int, i: int, k: int)
    requires
        0 <= i,
        0 <= k < ray_moves(b, sq, d, i).len(),
    ensures
        i + k < edge_dist(sq, d),
        ray_moves(b, sq, d, i)[k] == new_move(
            sq,
            sq + dir_offset(d) * (i + k + 1),
            MoveType::Normal,
        ),
        forall|j: int| 0 <= j < k ==> #[trigger] pass_through(b, sq, d, i + j),
    decreases k,
{
    if k == 0 {
    } else {
        lemma_ray_index(b, sq, d, i + 1, k - 1);
        assert(forall|j: int| 0 <= j < k ==> #[trigger] pass_through(b, sq, d, i + j)) by {
            assert forall|j: int| 0 <= j < k implies #[trigger] pass_through(b, sq, d, i + j) by {
                if j == 0 {
                } else {
                    assert(pass_through(b, sq, d, (i + 1) + (j - 1)));
                }
            }
        }
    }
}

/// A generated ray never continues past the first occupied square: on a
/// board whose squares satisfy the kind/color invariant, every square that
/// a ray move of a colored piece passes over is empty.
pub proof fn lemma_ray_stops_at_first_occupied(b: Seq<BoardPiece>, sq: int, d: int, k: int)
    requires
        board_wf(b),
        board_pieces_wf(b),
        0 <= sq < 64,
        0 <= d < 8,
        b[sq].piece_color != PieceColor::NoColor,
        0 <= k < ray_moves(b, sq, d, 0).len(),
    ensures
        ray_moves(b, sq, d, 0)[k] == new_move(
            sq,
            sq + dir_offset(d) * (k + 1),
            MoveType::Normal,
        ),
        forall|j: int|
            0 <= j < k ==> #[trigger] b[sq + dir_offset(d) * (j + 1)].piece_type
                == ChessPieces::Empty,
{
    lemma_ray_index(b, sq, d, 0, k);
    assert forall|j: int|
        0 <= j < k implies #[trigger] b[sq + dir_offset(d) * (j + 1)].piece_type
        == ChessPieces::Empty by {
        lemma_step_on_board(sq, d, j + 1);
        assert(pass_through(b, sq, d, 0 + j));
        assert(pass_through(b, sq, d, j));
        let t = sq + dir_offset(d) * (j + 1);
        assert(b[t].piece_color == PieceColor::NoColor);
    }
}

/// Every ray move references on-board squares only.
proof fn lemma_ray_moves_in_bounds(b: Seq<BoardPiece>, sq: int, d: int)
    requires
        0 <= sq < 64,
        0 <= d < 8,
    ensures
        moves_in_bounds(ray_moves(b, sq, d, 0)),
{
    assert forall|k: int| 0 <= k < ray_moves(b, sq, d, 0).len() implies move_in_bounds(
        #[trigger] ray_moves(b, sq, d, 0)[k],
    ) by {
        lemma_ray_index(b, sq, d, 0, k);
        lemma_step_on_board(sq, d, k + 1);
    }
}

/// Every slider move references on-board squares only.
pub proof fn lemma_slider_moves_in_bounds(b: Seq<BoardPiece>, sq: int, lo: int, hi: int)
    requires
        0 <= sq < 64,
        0 <= lo <= hi <= 8,
    ensures
        moves_in_bounds(slider_dirs_moves(b, sq, lo, hi)),
    decreases hi - lo,
{
    if hi <= lo {
    } else {
        lemma_slider_moves_in_bounds(b, sq, lo, hi - 1);
        lemma_ray_moves_in_bounds(b, sq, hi - 1);
        lemma_moves_in_bounds_add(slider_dirs_moves(b, sq, lo, hi - 1), ray_moves(b, sq, hi - 1, 0));
    }
}

/// Scans outward from `start_square` in every direction the slider moves in,
/// appending one move per empty square entered and one per enemy square
/// captured; a friendly piece or the board edge ends each ray.
pub fn generate_sliding_pieces(
    start_square: usize,
    board: &Vec<BoardPiece>,
    moves: &mut Vec<Move>,
    sqs_to_edge: &SquaresToEdge,
)
    requires
        board_wf(board@),
        start_square < 64,
        table_wf(*sqs_to_edge),
    ensures
        final(moves)@ == old(moves)@ + slider_moves(board@, start_square as int),
{
    let start_piece = board[start_square];
    let (start_direction_index, end_direction_index): (usize, usize) = match start_piece
        .piece_type {
        ChessPieces::Queens => (0, 8),
        ChessPieces::Bishops => (4, 8),
        ChessPieces::Rooks => (0, 4),
        _ => (0, 8),
    };
    let ghost b = board@;
    let ghost sq = start_square as int;
    let ghost lo = slider_dir_lo(b[sq].piece_type);
    let ghost hi = slider_dir_hi(b[sq].piece_type);

    let mut direction_index: usize = start_direction_index;
    while direction_index < end_direction_index
        invariant
            board_wf(board@),
            start_square < 64,
            table_wf(*sqs_to_edge),
            b == board@,
            sq == start_square as int,
            lo == start_direction_index as int,
            hi == end_direction_index as int,
            lo == slider_dir_lo(b[sq].piece_type),
            hi == slider_dir_hi(b[sq].piece_type),
            0 <= lo <= direction_index as int <= hi <= 8,
            start_piece == board@[sq],
            moves@ == old(moves)@ + slider_dirs_moves(b, sq, lo, direction_index as int),
        decreases end_direction_index - direction_index,
    {
        let d = direction_index;
        proof {
            lemma_edge_dist_bounds(sq, d as int);
        }
        let steps: i16 = sqs_to_edge[start_square][d];
        let offset: i16 = if d == 0 {
            8
        } else if d == 1 {
            -8
        } else if d == 2 {
            -1
        } else if d == 3 {
            1
        } else if d == 4 {
            7
        } else if d == 5 {
            -7
        } else if d == 6 {
            9
        } else {
            -9
        };
        let ghost pre = moves@;
        let mut n: i16 = 0;
        let mut blocked = false;
        while n < steps
            invariant
                board_wf(board@),
                start_square < 64,
                b == board@,
                sq == start_square as int,
                0 <= d < 8,
                steps as int == edge_dist(sq, d as int),
                0 <= steps <= 7,
                offset as int == dir_offset(d as int),
                start_piece == board@[sq],
                0 <= n <= steps,
                blocked ==> n == steps,
                !blocked ==> (forall|j: int| 0 <= j < n ==> pass_through(b, sq, d as int, j))
                    && moves@ == pre + ray_prefix(b, sq, d as int, n as int),
                blocked ==> moves@ == pre + ray_moves(b, sq, d as int, 0),
            decreases steps - n,
        {
            let step_count = n;
            proof {
                lemma_step_on_board(sq, d as int, step_count as int + 1);
            }
            let target_square: i16 = start_square as i16 + offset * (step_count + 1);
            let target_piece = board[target_square as usize];
            let movement = Move {
                start_square: start_square as i16,
                target_square,
                move_type: MoveType::Normal,
            };
            if target_piece.piece_color == start_piece.piece_color {
                // blocked by a friendly piece: emit nothing and stop this ray
                proof {
                    lemma_ray_prefix(b, sq, d as int, step_count as int);
                    assert(ray_moves(b, sq, d as int, step_count as int) =~= Seq::<Move>::empty());
                    assert(moves@ =~= pre + ray_moves(b, sq, d as int, 0));
                }
                blocked = true;
                n = steps;
            } else if is_opponent_color(&target_piece.piece_color, &start_piece.piece_color) {
                // capture the enemy piece and stop this ray
                moves.push(movement);
                proof {
                    lemma_ray_prefix(b, sq, d as int, step_count as int);
                    assert(ray_moves(b, sq, d as int, step_count as int) == seq![
                        new_move(
                            sq,
                            sq + dir_offset(d as int) * (step_count as int + 1),
                            MoveType::Normal,
                        ),
                    ]);
                    assert(moves@ =~= pre + ray_moves(b, sq, d as int, 0));
                }
                blocked = true;
                n = steps;
            } else {
                moves.push(movement);
                proof {
                    assert(pass_through(b, sq, d as int, step_count as int));
                    assert(moves@ =~= pre + ray_prefix(b, sq, d as int, step_count as int + 1));
                }
                n = step_count + 1;
            }
        }
        proof {
            if !blocked {
                lemma_ray_prefix(b, sq, d as int, steps as int);
                assert(ray_moves(b, sq, d as int, steps as int) =~= Seq::<Move>::empty());
                assert(moves@ =~= pre + ray_moves(b, sq, d as int, 0));
            }
            assert(moves@ =~= old(moves)@ + slider_dirs_moves(b, sq, lo, d as int + 1));
        }
        direction_index = direction_index + 1;
    }
}

} // verus!
