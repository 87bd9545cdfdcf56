//! Check detection: is the friendly king's square a target of any enemy
//! move?

use vstd::prelude::*;

use crate::chess_state::unmake_move;
use crate::error_types::MoveError;
use crate::types::{BoardPiece, ChessPieces, Move};

verus! {

/// The square of the first king among the recorded friendly pieces, if any.
pub open spec fn first_king_square(locs: Seq<(ChessPieces, usize)>) -> Option<usize>
    decreases locs.len(),
{
    if locs.len() == 0 {
        None
    } else if locs[0].0 == ChessPieces::Kings {
        Some(locs[0].1)
    } else {
        first_king_square(locs.drop_first())
    }
}

/// A move enters the given square.
pub open spec fn move_targets(m: Move, sq: int) -> bool {
    m.target_square as int == sq
}

/// The side whose pieces are recorded in `locs` is in check: it has a king
/// and some enemy move targets that king's square. A side without a king is
/// never in check.
pub open spec fn check_spec(locs: Seq<(ChessPieces, usize)>, enemy: Seq<Move>) -> bool {
    match first_king_square(locs) {
        Option::None => false,
        Option::Some(king_sq) => exists|j: int|
            0 <= j < enemy.len() && move_targets(#[trigger] enemy[j], king_sq as int),
    }
}

/// Finds the friendly king among the recorded piece locations and reports
/// whether any enemy move targets its square.
///
/// Both arguments must come from the same position; a mismatched pair is a
/// caller error that this function cannot detect.
pub fn detect_check(
    friendly_piece_locations: &Vec<(ChessPieces, usize)>,
    enemy_movements: &Vec<Move>,
) -> (r: bool)
    ensures
        r == check_spec(friendly_piece_locations@, enemy_movements@),
{
    let ghost locs = friendly_piece_locations@;
    let ghost enemy = enemy_movements@;

    // find the first recorded king
    proof {
        assert(locs.skip(0) =~= locs);
    }
    let mut king_position: Option<usize> = None;
    let mut i: usize = 0;
    while i < friendly_piece_locations.len() && king_position.is_none()
        invariant
            0 <= i <= locs.len(),
            locs == friendly_piece_locations@,
            match king_position {
                Option::None => first_king_square(locs) == first_king_square(
                    locs.skip(i as int),
                ),
                Option::Some(sq) => first_king_square(locs) == Option::Some(sq),
            },
        decreases locs.len() - i,
    {
        let entry = friendly_piece_locations[i];
        proof {
            assert(locs.skip(i as int)[0] == locs[i as int]);
        }
        if entry.0 == ChessPieces::Kings {
            king_position = Some(entry.1);
        } else {
            proof {
                assert(locs.skip(i as int).drop_first() =~= locs.skip(i as int + 1));
            }
        }
        i = i + 1;
    }

    match king_position {
        Option::None => {
            proof {
                assert(locs.skip(locs.len() as int) =~= Seq::<(ChessPieces, usize)>::empty());
            }
            false
        },
        Option::Some(king_square) => {
            let mut hit = false;
            let mut j: usize = 0;
            while j < enemy_movements.len()
                invariant
                    0 <= j <= enemy.len(),
                    enemy == enemy_movements@,
                    first_king_square(locs) == Option::Some(king_square),
                    hit == exists|k: int|
                        0 <= k < j && move_targets(#[trigger] enemy[k], king_square as int),
                decreases enemy.len() - j,
            {
                let mov = enemy_movements[j];
                if mov.target_square >= 0 && mov.target_square as usize == king_square {
                    proof {
                        assert(move_targets(enemy[j as int], king_square as int));
                    }
                    hit = true;
                }
                j = j + 1;
            }
            hit
        },
    }
}

/// When the prior move left its mover in check, undoes it on the board and
/// reports the rejection; otherwise leaves the board as it stands.
pub fn unmake_move_based_on_check(
    board: &mut Vec<BoardPiece>,
    previous_move: Option<(Move, BoardPiece, BoardPiece)>,
    is_in_check: bool,
) -> (r: Result<(), MoveError>)
    requires
        old(board)@.len() == 64,
    ensures
        match previous_move {
            Option::Some(pm) => {
                if is_in_check {
                    if crate::types::move_in_bounds(pm.0) {
                        &&& r == Err::<(), MoveError>(MoveError::IllegalMove)
                        &&& final(board)@ == old(board)@.update(
                            pm.0.start_square as int,
                            pm.1,
                        ).update(pm.0.target_square as int, pm.2)
                    } else {
                        &&& r == Err::<(), MoveError>(MoveError::OutOfBounds)
                        &&& final(board)@ == old(board)@
                    }
                } else {
                    r == Ok::<(), MoveError>(()) && final(board)@ == old(board)@
                }
            },
            Option::None => r == Ok::<(), MoveError>(()) && final(board)@ == old(board)@,
        },
{
    if is_in_check {
        match previous_move {
            Some(pm) => {
                match unmake_move(board, pm) {
                    Ok(_) => Err(MoveError::IllegalMove),
                    Err(err) => Err(err),
                }
            },
            None => Ok(()),
        }
    } else {
        Ok(())
    }
}

} // verus!
