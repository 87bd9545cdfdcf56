//! The game position, the move applier and its inverse, and the algebraic
//! notation decoder.

use vstd::prelude::*;

use crate::error_types::MoveError;
use crate::types::{
    BoardPiece, Castle, ChessPieces, Move, MoveType, PieceColor, board_wf, copy_board,
    empty_piece, move_in_bounds, moves_in_bounds,
};

verus! {

/// A full game position: the board, the side to move, the castling rights
/// of the side to move, and the en-passant target square, if any.
///
/// A position is owned by its caller and never mutated by the core: every
/// transition clones and modifies.
#[derive(Debug)]
pub struct ChessState {
    pub board: Vec<BoardPiece>,
    pub color_to_move: PieceColor,
    pub is_able_to_castle: Castle,
    pub en_passant_target: Option<i16>,
}

/// The position holds a full 64-square board.
pub open spec fn state_wf(s: ChessState) -> bool {
    board_wf(s.board@)
}

impl Clone for ChessState {
    fn clone(&self) -> (r: Self)
        ensures
            r.board@ == self.board@,
            r.color_to_move == self.color_to_move,
            r.is_able_to_castle == self.is_able_to_castle,
            r.en_passant_target == self.en_passant_target,
    {
        ChessState {
            board: copy_board(&self.board),
            color_to_move: self.color_to_move,
            is_able_to_castle: self.is_able_to_castle,
            en_passant_target: self.en_passant_target,
        }
    }
}

impl Default for ChessState {
    fn default() -> (r: Self)
        ensures
            state_wf(r),
            forall|i: int| 0 <= i < 64 ==> r.board@[i] == empty_piece(),
            r.color_to_move == PieceColor::Black,
            !r.is_able_to_castle.queenside,
            !r.is_able_to_castle.kingside,
            r.en_passant_target is None,
    {
        let mut board: Vec<BoardPiece> = Vec::new();
        let mut i: usize = 0;
        while i < 64
            invariant
                0 <= i <= 64,
                board@.len() == i,
                forall|j: int| 0 <= j < i ==> board@[j] == empty_piece(),
            decreases 64 - i,
        {
            board.push(
                BoardPiece { piece_type: ChessPieces::Empty, piece_color: PieceColor::NoColor },
            );
            i = i + 1;
        }
        ChessState {
            board,
            color_to_move: PieceColor::Black,
            is_able_to_castle: Castle { queenside: false, kingside: false },
            en_passant_target: None,
        }
    }
}

/// The move relocates exactly the requested pair of squares.
pub open spec fn move_matches(m: Move, s: u32, e: u32) -> bool {
    &&& m.start_square as int == s as int
    &&& m.target_square as int == e as int
}

/// The first move of the list with the requested squares, if any.
pub open spec fn find_move(ms: Seq<Move>, s: u32, e: u32) -> Option<Move>
    decreases ms.len(),
{
    if ms.len() == 0 {
        None
    } else if move_matches(ms[0], s, e) {
        Some(ms[0])
    } else {
        find_move(ms.drop_first(), s, e)
    }
}

/// A move found in an in-bounds list is itself in bounds and carries the
/// requested squares.
pub proof fn lemma_find_move_in_bounds(ms: Seq<Move>, s: u32, e: u32)
    requires
        moves_in_bounds(ms),
        find_move(ms, s, e) is Some,
    ensures
        move_in_bounds(find_move(ms, s, e).unwrap()),
        move_matches(find_move(ms, s, e).unwrap(), s, e),
    decreases ms.len(),
{
    if ms.len() == 0 {
    } else if move_matches(ms[0], s, e) {
    } else {
        assert(moves_in_bounds(ms.drop_first())) by {
            assert forall|i: int| 0 <= i < ms.drop_first().len() implies move_in_bounds(
                #[trigger] ms.drop_first()[i],
            ) by {
                assert(ms.drop_first()[i] == ms[i + 1]);
            }
        }
        lemma_find_move_in_bounds(ms.drop_first(), s, e);
    }
}

/// Board after the rook half of a castle move: the rook jumps next to the
/// king's landing square and its corner is cleared. The branch is chosen by
/// the mover's color and the king's landing square.
pub open spec fn castle_rook_board(
    b: Seq<BoardPiece>,
    sp: BoardPiece,
    color: PieceColor,
    e: int,
) -> Seq<BoardPiece> {
    if color == PieceColor::White {
        if e == 2 {
            b.update(2, sp).update(3, b[0]).update(2, empty_piece()).update(0, empty_piece())
        } else if e == 6 {
            b.update(6, sp).update(5, b[7]).update(6, empty_piece()).update(7, empty_piece())
        } else {
            b
        }
    } else if color == PieceColor::Black {
        if e == 58 {
            b.update(58, sp).update(59, b[56]).update(58, empty_piece()).update(56, empty_piece())
        } else if e == 62 {
            b.update(62, sp).update(61, b[63]).update(62, empty_piece()).update(63, empty_piece())
        } else {
            b
        }
    } else {
        b
    }
}

/// Board after applying the found move: the rook relocation first when the
/// move is a castle, then the moving piece lands on the target and its
/// origin is cleared.
pub open spec fn apply_move_board(b: Seq<BoardPiece>, m: Move, s: int, e: int) -> Seq<
    BoardPiece,
> {
    let sp = b[s];
    let b1 = if m.move_type == MoveType::Castle {
        castle_rook_board(b, sp, sp.piece_color, e)
    } else {
        b
    };
    b1.update(e, sp).update(s, empty_piece())
}

/// Full contract of the move applier. The request fails with `IllegalMove`
/// exactly when no generated move carries the requested squares, or the
/// first such move is a `NoCapture` pawn move and the target square is
/// occupied. On success the new position holds the applied board and every
/// other field unchanged.
pub open spec fn make_move_post(
    state: ChessState,
    moves: Seq<Move>,
    s: u32,
    e: u32,
    r: Result<ChessState, MoveError>,
) -> bool {
    match find_move(moves, s, e) {
        Option::None => r == Err::<ChessState, MoveError>(MoveError::IllegalMove),
        Option::Some(m) => {
            if m.move_type == MoveType::NoCapture && state.board@[e as int].piece_type
                != ChessPieces::Empty {
                r == Err::<ChessState, MoveError>(MoveError::IllegalMove)
            } else {
                match r {
                    Result::Ok(ns) => {
                        &&& ns.board@ == apply_move_board(state.board@, m, s as int, e as int)
                        &&& ns.color_to_move == state.color_to_move
                        &&& ns.is_able_to_castle == state.is_able_to_castle
                        &&& ns.en_passant_target == state.en_passant_target
                    },
                    Result::Err(_) => false,
                }
            }
        },
    }
}

/// Clones the position and applies the move with the requested start and
/// end squares, if the move list offers one.
///
/// The move list is expected to have been generated from this position
/// (a mismatched pair is a caller error that this function cannot detect).
pub fn make_move(
    state: &ChessState,
    friendly_movements: &Vec<Move>,
    start_square_index: u32,
    end_square_index: u32,
) -> (r: Result<ChessState, MoveError>)
    requires
        state_wf(*state),
        moves_in_bounds(friendly_movements@),
    ensures
        make_move_post(*state, friendly_movements@, start_square_index, end_square_index, r),
{
    let ghost ms = friendly_movements@;
    let ghost s = start_square_index;
    let ghost e = end_square_index;

    proof {
        assert(ms.skip(0) =~= ms);
    }
    let mut found: Option<Move> = None;
    let mut idx: usize = 0;
    while idx < friendly_movements.len() && found.is_none()
        invariant
            0 <= idx <= ms.len(),
            ms == friendly_movements@,
            s == start_square_index,
            e == end_square_index,
            moves_in_bounds(ms),
            match found {
                Option::None => find_move(ms, s, e) == find_move(ms.skip(idx as int), s, e),
                Option::Some(m) => find_move(ms, s, e) == Option::Some(m),
            },
        decreases ms.len() - idx,
    {
        let m = friendly_movements[idx];
        proof {
            assert(move_in_bounds(ms[idx as int]));
            assert(ms.skip(idx as int)[0] == ms[idx as int]);
        }
        if m.start_square as i64 == start_square_index as i64 && m.target_square as i64
            == end_square_index as i64 {
            proof {
                assert(move_matches(ms[idx as int], s, e));
                assert(find_move(ms.skip(idx as int), s, e) == Option::Some(ms[idx as int]));
            }
            found = Some(m);
        } else {
            proof {
                assert(ms.skip(idx as int).drop_first() =~= ms.skip(idx as int + 1));
            }
        }
        idx = idx + 1;
    }

    match found {
        Option::None => {
            proof {
                assert(ms.skip(ms.len() as int) =~= Seq::<Move>::empty());
            }
            Err(MoveError::IllegalMove)
        },
        Option::Some(m) => {
            proof {
                lemma_find_move_in_bounds(ms, s, e);
            }
            let start_square: usize = start_square_index as usize;
            let end_square: usize = end_square_index as usize;
            let start_piece = state.board[start_square];
            let end_piece = state.board[end_square];

            if m.move_type == MoveType::NoCapture && end_piece.piece_type != ChessPieces::Empty {
                return Err(MoveError::IllegalMove);
            }

            let mut new_state = state.clone();
            if m.move_type == MoveType::Castle {
                match start_piece.piece_color {
                    PieceColor::White => {
                        if end_square == 2 {
                            new_state.board.set(2, start_piece);
                            let rook = new_state.board[0];
                            new_state.board.set(3, rook);
                            new_state.board.set(
                                2,
                                BoardPiece {
                                    piece_type: ChessPieces::Empty,
                                    piece_color: PieceColor::NoColor,
                                },
                            );
                            new_state.board.set(
                                0,
                                BoardPiece {
                                    piece_type: ChessPieces::Empty,
                                    piece_color: PieceColor::NoColor,
                                },
                            );
                        }
                        if end_square == 6 {
                            new_state.board.set(6, start_piece);
                            let rook = new_state.board[7];
                            new_state.board.set(5, rook);
                            new_state.board.set(
                                6,
                                BoardPiece {
                                    piece_type: ChessPieces::Empty,
                                    piece_color: PieceColor::NoColor,
                                },
                            );
                            new_state.board.set(
                                7,
                                BoardPiece {
                                    piece_type: ChessPieces::Empty,
                                    piece_color: PieceColor::NoColor,
                                },
                            );
                        }
                    },
                    PieceColor::Black => {
                        if end_square == 58 {
                            new_state.board.set(58, start_piece);
                            let rook = new_state.board[56];
                            new_state.board.set(59, rook);
                            new_state.board.set(
                                58,
                                BoardPiece {
                                    piece_type: ChessPieces::Empty,
                                    piece_color: PieceColor::NoColor,
                                },
                            );
                            new_state.board.set(
                                56,
                                BoardPiece {
                                    piece_type: ChessPieces::Empty,
                                    piece_color: PieceColor::NoColor,
                                },
                            );
                        }
                        if end_square == 62 {
                            new_state.board.set(62, start_piece);
                            let rook = new_state.board[63];
                            new_state.board.set(61, rook);
                            new_state.board.set(
                                62,
                                BoardPiece {
                                    piece_type: ChessPieces::Empty,
                                    piece_color: PieceColor::NoColor,
                                },
                            );
                            new_state.board.set(
                                63,
                                BoardPiece {
                                    piece_type: ChessPieces::Empty,
                                    piece_color: PieceColor::NoColor,
                                },
                            );
                        }
                    },
                    PieceColor::NoColor => {},
                }
            }
            proof {
                assert(new_state.board@ =~= castle_rook_board(
                    state.board@,
                    start_piece,
                    start_piece.piece_color,
                    e as int,
                ) || (m.move_type != MoveType::Castle && new_state.board@ =~= state.board@));
            }
            new_state.board.set(end_square, start_piece);
            new_state.board.set(
                start_square,
                BoardPiece { piece_type: ChessPieces::Empty, piece_color: PieceColor::NoColor },
            );
            proof {
                assert(new_state.board@ =~= apply_move_board(
                    state.board@,
                    m,
                    s as int,
                    e as int,
                ));
            }
            Ok(new_state)
        },
    }
}

/// Contract of the inverse applier: with both squares on the board it
/// restores the two prior piece values; otherwise it reports `OutOfBounds`
/// and leaves the board untouched.
pub open spec fn unmake_post(
    b0: Seq<BoardPiece>,
    pm: (Move, BoardPiece, BoardPiece),
    b1: Seq<BoardPiece>,
    r: Result<(), MoveError>,
) -> bool {
    if move_in_bounds(pm.0) {
        &&& r == Ok::<(), MoveError>(())
        &&& b1 == b0.update(pm.0.start_square as int, pm.1).update(
            pm.0.target_square as int,
            pm.2,
        )
    } else {
        &&& r == Err::<(), MoveError>(MoveError::OutOfBounds)
        &&& b1 == b0
    }
}

/// Restores the start and target squares of a prior move from the two
/// recorded piece values; defends against off-board indices.
pub fn unmake_move(
    board: &mut Vec<BoardPiece>,
    previous_move: (Move, BoardPiece, BoardPiece),
) -> (r: Result<(), MoveError>)
    requires
        old(board)@.len() == 64,
    ensures
        unmake_post(old(board)@, previous_move, final(board)@, r),
{
    let (m, prev_start_piece, prev_target_piece) = previous_move;
    if m.start_square >= 0 && m.start_square < 64 && m.target_square >= 0 && m.target_square
        < 64 {
        board.set(m.start_square as usize, prev_start_piece);
        board.set(m.target_square as usize, prev_target_piece);
        Ok(())
    } else {
        Err(MoveError::OutOfBounds)
    }
}

/// A `NoCapture` pawn move applied against a position whose target square
/// is occupied always fails with `IllegalMove`.
pub proof fn lemma_no_capture_rejected_on_occupied_target(
    state: ChessState,
    moves: Seq<Move>,
    s: u32,
    e: u32,
    r: Result<ChessState, MoveError>,
)
    requires
        make_move_post(state, moves, s, e, r),
        find_move(moves, s, e) matches Some(m) && m.move_type == MoveType::NoCapture,
        state.board@[e as int].piece_type != ChessPieces::Empty,
    ensures
        r == Err::<ChessState, MoveError>(MoveError::IllegalMove),
{
}

/// Applying a non-castle move and then its literal inverse -- writing the
/// two prior piece values back onto the start and target squares -- restores
/// the board exactly.
pub proof fn lemma_apply_then_unmake_restores_board(
    state: ChessState,
    moves: Seq<Move>,
    s: u32,
    e: u32,
    ns: ChessState,
)
    requires
        state_wf(state),
        moves_in_bounds(moves),
        make_move_post(state, moves, s, e, Ok(ns)),
        find_move(moves, s, e) matches Some(m) && m.move_type != MoveType::Castle,
    ensures
        unmake_post(
            ns.board@,
            (find_move(moves, s, e).unwrap(), state.board@[s as int], state.board@[e as int]),
            state.board@,
            Ok(()),
        ),
{
    let m = find_move(moves, s, e).unwrap();
    lemma_find_move_in_bounds(moves, s, e);
    assert(m.start_square as int == s as int && m.target_square as int == e as int);
    assert(ns.board@.update(m.start_square as int, state.board@[s as int]).update(
        m.target_square as int,
        state.board@[e as int],
    ) =~= state.board@);
}

/// File letter values used by the algebraic notation decoder.
pub open spec fn file_number_of_char(c: char) -> Option<u32> {
    if c == 'A' || c == 'a' {
        Some(1u32)
    } else if c == 'B' || c == 'b' {
        Some(2u32)
    } else if c == 'C' || c == 'c' {
        Some(3u32)
    } else if c == 'D' || c == 'd' {
        Some(4u32)
    } else if c == 'E' || c == 'e' {
        Some(5u32)
    } else if c == 'F' || c == 'f' {
        Some(6u32)
    } else if c == 'G' || c == 'g' {
        Some(7u32)
    } else if c == 'H' || c == 'h' {
        Some(8u32)
    } else {
        None
    }
}

/// Maps a file letter to its 1-based file number.
pub fn map_char_to_number(c: char) -> (r: Option<u32>)
    ensures
        r == file_number_of_char(c),
{
    match c {
        'A' | 'a' => Some(1),
        'B' | 'b' => Some(2),
        'C' | 'c' => Some(3),
        'D' | 'd' => Some(4),
        'E' | 'e' => Some(5),
        'F' | 'f' => Some(6),
        'G' | 'g' => Some(7),
        'H' | 'h' => Some(8),
        _ => None,
    }
}

/// Folds one coordinate snippet left to right: digits set the rank, file
/// letters set the file, carriage returns and newlines are skipped, any
/// other character invalidates the snippet. The result is the square index
/// `rank * 8 + file`.
pub open spec fn snippet_fold(s: Seq<char>, i: int, file: int, rank: int) -> Option<int>
    decreases s.len() - i,
{
    if i >= s.len() {
        Some(rank * 8 + file)
    } else {
        let cu = s[i] as int;
        if ('1' as int) <= cu && cu <= ('8' as int) {
            snippet_fold(s, i + 1, file, cu - ('1' as int))
        } else {
            match file_number_of_char(s[i]) {
                Option::Some(n) => snippet_fold(s, i + 1, n as int - 1, rank),
                Option::None => {
                    if s[i] == '\r' || s[i] == '\n' {
                        snippet_fold(s, i + 1, file, rank)
                    } else {
                        None
                    }
                },
            }
        }
    }
}

/// Decodes one algebraic coordinate snippet such as `"e2"` into a square
/// index.
pub fn convert_algebraic_snippet(notation: &str) -> (r: Result<u32, &'static str>)
    ensures
        match snippet_fold(notation@, 0, 0, 0) {
            Option::Some(v) => r == Ok::<u32, &'static str>(v as u32),
            Option::None => r is Err,
        },
{
    let n = notation.unicode_len();
    let mut file: u32 = 0;
    let mut rank: u32 = 0;
    let mut i: usize = 0;
    while i < n
        invariant
            0 <= i <= n,
            n == notation@.len(),
            0 <= file <= 7,
            0 <= rank <= 7,
            snippet_fold(notation@, 0, 0, 0) == snippet_fold(
                notation@,
                i as int,
                file as int,
                rank as int,
            ),
        decreases n - i,
    {
        let ch = notation.get_char(i);
        let cu = ch as u32;
        if cu >= ('1' as u32) && cu <= ('8' as u32) {
            rank = cu - ('1' as u32);
        } else {
            match map_char_to_number(ch) {
                Some(file_number) => {
                    file = file_number - 1;
                },
                None => {
                    if ch == '\r' || ch == '\n' {
                        // line endings are tolerated and skipped
                    } else {
                        return Err("Invalid notation!");
                    }
                },
            }
        }
        i = i + 1;
    }
    Ok(rank * 8 + file)
}

/// The decode of a four-character coordinate pair: the first two characters
/// give the start square, the rest the target square.
pub open spec fn notation_decode(s: Seq<char>) -> Option<(int, int)> {
    if s.len() < 2 {
        None
    } else {
        match snippet_fold(s.subrange(0, 2), 0, 0, 0) {
            Option::None => None,
            Option::Some(v1) => {
                match snippet_fold(s.subrange(2, s.len() as int), 0, 0, 0) {
                    Option::None => None,
                    Option::Some(v2) => Some((v1, v2)),
                }
            },
        }
    }
}

/// Decodes algebraic coordinate text such as `"e2e4"` into a pair of square
/// indices.
pub fn algebraic_notation_decoder(notation: &str) -> (r: Result<(u32, u32), &'static str>)
    ensures
        match notation_decode(notation@) {
            Option::Some(p) => r == Ok::<(u32, u32), &'static str>((p.0 as u32, p.1 as u32)),
            Option::None => r is Err,
        },
{
    let n = notation.unicode_len();
    if n == 0 {
        return Err("Empty notation!");
    }
    if n < 2 {
        return Err("Invalid notation!");
    }
    let notation_start = notation.substring_char(0, 2);
    let notation_end = notation.substring_char(2, n);
    let start_square_index = match convert_algebraic_snippet(notation_start) {
        Ok(v) => v,
        Err(msg) => {
            return Err(msg);
        },
    };
    let end_square_index = match convert_algebraic_snippet(notation_end) {
        Ok(v) => v,
        Err(msg) => {
            return Err(msg);
        },
    };
    Ok((start_square_index, end_square_index))
}



} // verus!
