//! Pin detection: ray-casting from friendly sliders toward the enemy king.

use vstd::prelude::*;

use crate::geometry::{
    dir_offset, edge_dist, lemma_edge_dist_bounds, lemma_step_on_board, table_wf,
};
use crate::sliding_piece::{slider_dir_hi, slider_dir_lo};
use crate::types::{
    BoardPiece, ChessPieces, Move, PieceColor, SquaresToEdge, board_wf, is_slider,
    moves_in_bounds,
};

verus! {

/// One record of a pinned piece: the ray direction offset it is pinned
/// along, its kind and its color.
pub type PinRecord = (i16, ChessPieces, PieceColor);

/// Walks the ray from `sq` in direction `d`, starting at step `i`, with the
/// enemy pieces met so far in `path`. An enemy piece other than a king
/// joins the path; a second one cancels the ray. An enemy king ends the
/// walk and reports the path -- the single piece standing between the slider
/// and the king. Friendly pieces and empty squares are walked past.
pub open spec fn pin_walk(
    b: Seq<BoardPiece>,
    sq: int,
    d: int,
    i: int,
    path: Seq<PinRecord>,
) -> Seq<PinRecord>
    decreases edge_dist(sq, d) - i,
{
    if i >= edge_dist(sq, d) {
        Seq::empty()
    } else {
        let t = sq + dir_offset(d) * (i + 1);
        if b[t].piece_type != ChessPieces::Empty && b[t].piece_type != ChessPieces::Kings
            && b[t].piece_color != b[sq].piece_color {
            let path2 = path.push(
                (dir_offset(d) as i16, b[t].piece_type, b[t].piece_color),
            );
            if path2.len() > 1 {
                Seq::empty()
            } else {
                pin_walk(b, sq, d, i + 1, path2)
            }
        } else if b[t].piece_type == ChessPieces::Kings && b[t].piece_color
            != b[sq].piece_color {
            path
        } else {
            pin_walk(b, sq, d, i + 1, path)
        }
    }
}

/// Pin records of all rays with directions in `[lo, hi)`, in direction
/// order.
pub open spec fn pin_dirs(b: Seq<BoardPiece>, sq: int, lo: int, hi: int) -> Seq<PinRecord>
    decreases hi - lo,
{
    if hi <= lo {
        Seq::empty()
    } else {
        pin_dirs(b, sq, lo, hi - 1) + pin_walk(b, sq, hi - 1, 0, Seq::empty())
    }
}

/// Pin records found by ray-casting from the piece on `sq`, scanning the
/// directions of its slider kind.
pub open spec fn pin_square_spec(b: Seq<BoardPiece>, sq: int) -> Seq<PinRecord> {
    pin_dirs(b, sq, slider_dir_lo(b[sq].piece_type), slider_dir_hi(b[sq].piece_type))
}

/// Pin records reported for a whole move list: every move whose start
/// square holds a friendly slider contributes that slider's ray-casts.
pub open spec fn pin_board_spec(b: Seq<BoardPiece>, mvs: Seq<Move>, n: int) -> Seq<PinRecord>
    decreases n,
{
    if n <= 0 {
        Seq::empty()
    } else {
        pin_board_spec(b, mvs, n - 1) + (
        if is_slider(b[mvs[n - 1].start_square as int].piece_type) {
            pin_square_spec(b, mvs[n - 1].start_square as int)
        } else {
            Seq::empty()
        })
    }
}

/// Ray-casts outward from `start_square` in the directions of its slider
/// kind and reports, for each ray on which exactly one enemy piece stands
/// before an enemy king, that piece as pinned.
pub fn find_pinned_pieces_in_square(
    board: &Vec<BoardPiece>,
    start_square: usize,
    sqs_to_edge: &SquaresToEdge,
) -> (r: Vec<PinRecord>)
    requires
        board_wf(board@),
        start_square < 64,
        table_wf(*sqs_to_edge),
    ensures
        r@ == pin_square_spec(board@, start_square as int),
{
    let ghost b = board@;
    let ghost sq = start_square as int;

    let start_piece = board[start_square];
    let (start_direction_index, end_direction_index): (usize, usize) = match start_piece
        .piece_type {
        ChessPieces::Queens => (0, 8),
        ChessPieces::Bishops => (4, 8),
        ChessPieces::Rooks => (0, 4),
        _ => (0, 8),
    };
    let ghost lo = slider_dir_lo(b[sq].piece_type);
    let ghost hi = slider_dir_hi(b[sq].piece_type);

    let mut pinned_pieces: Vec<PinRecord> = Vec::new();

    let mut direction_index: usize = start_direction_index;
    while direction_index < end_direction_index
        invariant
            board_wf(board@),
            start_square < 64,
            table_wf(*sqs_to_edge),
            b == board@,
            sq == start_square as int,
            lo == start_direction_index as int,
            hi == end_direction_index as int,
            lo == slider_dir_lo(b[sq].piece_type),
            hi == slider_dir_hi(b[sq].piece_type),
            0 <= lo <= direction_index as int <= hi <= 8,
            start_piece == board@[sq],
            pinned_pieces@ == pin_dirs(b, sq, lo, direction_index as int),
        decreases end_direction_index - direction_index,
    {
        let d = direction_index;
        proof {
            lemma_edge_dist_bounds(sq, d as int);
        }
        let steps: i16 = sqs_to_edge[start_square][d];
        let offset: i16 = if d == 0 {
            8
        } else if d == 1 {
            -8
        } else if d == 2 {
            -1
        } else if d == 3 {
            1
        } else if d == 4 {
            7
        } else if d == 5 {
            -7
        } else if d == 6 {
            9
        } else {
            -9
        };
        let ghost dirs_before = pinned_pieces@;
        let mut path: Vec<PinRecord> = Vec::new();
        let mut n: i16 = 0;
        let mut done = false;
        while n < steps
            invariant
                board_wf(board@),
                start_square < 64,
                b == board@,
                sq == start_square as int,
                0 <= d < 8,
                steps as int == edge_dist(sq, d as int),
                0 <= steps <= 7,
                offset as int == dir_offset(d as int),
                start_piece == board@[sq],
                0 <= n <= steps,
                done ==> n == steps,
                !done ==> path@.len() <= 1 && pinned_pieces@ == dirs_before && pin_walk(
                    b,
                    sq,
                    d as int,
                    0,
                    Seq::empty(),
                ) == pin_walk(b, sq, d as int, n as int, path@),
                done ==> pinned_pieces@ == dirs_before + pin_walk(
                    b,
                    sq,
                    d as int,
                    0,
                    Seq::empty(),
                ),
            decreases steps - n,
        {
            let step_count = n;
            proof {
                lemma_step_on_board(sq, d as int, step_count as int + 1);
            }
            let target_square: i16 = start_square as i16 + offset * (step_count + 1);
            let target_piece = board[target_square as usize];
            if target_piece.piece_type != ChessPieces::Empty && target_piece.piece_type
                != ChessPieces::Kings && target_piece.piece_color != start_piece.piece_color {
                path.push((offset, target_piece.piece_type, target_piece.piece_color));
                if path.len() > 1 {
                    // a second intervening piece cancels the pin on this ray
                    proof {
                        assert(pin_walk(b, sq, d as int, 0, Seq::empty())
                            =~= Seq::<PinRecord>::empty());
                        assert(pinned_pieces@ =~= dirs_before + pin_walk(
                            b,
                            sq,
                            d as int,
                            0,
                            Seq::empty(),
                        ));
                    }
                    done = true;
                    n = steps;
                } else {
                    n = step_count + 1;
                }
            } else if target_piece.piece_type == ChessPieces::Kings && target_piece.piece_color
                != start_piece.piece_color {
                // the enemy king closes the ray: whatever single piece the
                // path holds is pinned
                let mut k: usize = 0;
                while k < path.len()
                    invariant
                        0 <= k <= path@.len(),
                        pinned_pieces@ == dirs_before + path@.subrange(0, k as int),
                    decreases path@.len() - k,
                {
                    pinned_pieces.push(path[k]);
                    proof {
                        assert(pinned_pieces@ =~= dirs_before + path@.subrange(0, k as int + 1));
                    }
                    k = k + 1;
                }
                proof {
                    assert(path@.subrange(0, path@.len() as int) =~= path@);
                    assert(pin_walk(b, sq, d as int, step_count as int, path@) == path@);
                    assert(pinned_pieces@ =~= dirs_before + pin_walk(
                        b,
                        sq,
                        d as int,
                        0,
                        Seq::empty(),
                    ));
                }
                done = true;
                n = steps;
            } else {
                n = step_count + 1;
            }
        }
        proof {
            if !done {
                assert(pin_walk(b, sq, d as int, steps as int, path@) =~= Seq::<
                    PinRecord,
                >::empty());
                assert(pinned_pieces@ =~= dirs_before + pin_walk(b, sq, d as int, 0, Seq::empty()));
            }
            assert(pinned_pieces@ =~= pin_dirs(b, sq, lo, d as int + 1));
        }
        direction_index = direction_index + 1;
    }
    pinned_pieces
}

/// Runs the per-square pin search from the start square of every move whose
/// piece is a slider, in move-list order, and gathers the records.
pub fn find_pinned_pieces_in_board(
    board: &Vec<BoardPiece>,
    movement: &Vec<Move>,
    sqs_to_edge: &SquaresToEdge,
) -> (r: Vec<PinRecord>)
    requires
        board_wf(board@),
        moves_in_bounds(movement@),
        table_wf(*sqs_to_edge),
    ensures
        r@ == pin_board_spec(board@, movement@, movement@.len() as int),
{
    let ghost b = board@;
    let ghost mvs = movement@;

    let mut pinned_pieces: Vec<PinRecord> = Vec::new();
    let mut i: usize = 0;
    while i < movement.len()
        invariant
            0 <= i <= mvs.len(),
            board_wf(board@),
            table_wf(*sqs_to_edge),
            b == board@,
            mvs == movement@,
            moves_in_bounds(mvs),
            pinned_pieces@ == pin_board_spec(b, mvs, i as int),
        decreases mvs.len() - i,
    {
        let ghost pinned_before = pinned_pieces@;
        let mov = movement[i];
        proof {
            assert(crate::types::move_in_bounds(mvs[i as int]));
        }
        let start = mov.start_square as usize;
        let kind = board[start].piece_type;
        if kind == ChessPieces::Rooks || kind == ChessPieces::Queens || kind
            == ChessPieces::Bishops {
            let mut found = find_pinned_pieces_in_square(board, start, sqs_to_edge);
            let mut k: usize = 0;
            let ghost found_all = found@;
            while k < found.len()
                invariant
                    0 <= k <= found_all.len(),
                    found@ == found_all,
                    pinned_pieces@ == pinned_before + found_all.subrange(0, k as int),
                decreases found_all.len() - k,
            {
                pinned_pieces.push(found[k]);
                proof {
                    assert(pinned_pieces@ =~= pinned_before + found_all.subrange(0, k as int + 1));
                }
                k = k + 1;
            }
            proof {
                assert(found_all.subrange(0, found_all.len() as int) =~= found_all);
            }
        }
        proof {
            assert(pinned_pieces@ =~= pin_board_spec(b, mvs, i as int + 1));
        }
        i = i + 1;
    }
    pinned_pieces
}

} // verus!
