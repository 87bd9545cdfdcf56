//! Decoding of FEN-like position text into a `ChessState`.
//!
//! The decoder understands the board field, the side to move, the castling
//! field (read relative to the side to move) and the en-passant field;
//! later fields are ignored.

use vstd::prelude::*;

use crate::chess_state::{ChessState, file_number_of_char, state_wf};
use crate::types::{BoardPiece, Castle, ChessPieces, PieceColor, empty_piece};

verus! {

/// The whitespace characters that separate FEN fields.
pub open spec fn is_space(c: char) -> bool {
    c == ' ' || c == '\t' || c == '\n' || c == '\r'
}

/// Splits `s` into whitespace-separated tokens: `cur` is the token being
/// read, `acc` the tokens already read.
pub open spec fn split_ws(
    s: Seq<char>,
    i: int,
    cur: Seq<char>,
    acc: Seq<Seq<char>>,
) -> Seq<Seq<char>>
    decreases s.len() - i,
{
    if i >= s.len() {
        if cur.len() > 0 {
            acc.push(cur)
        } else {
            acc
        }
    } else if is_space(s[i]) {
        if cur.len() > 0 {
            split_ws(s, i + 1, Seq::empty(), acc.push(cur))
        } else {
            split_ws(s, i + 1, Seq::empty(), acc)
        }
    } else {
        split_ws(s, i + 1, cur.push(s[i]), acc)
    }
}

/// The whitespace-separated tokens of `s`.
pub open spec fn tokens_of(s: Seq<char>) -> Seq<Seq<char>> {
    split_ws(s, 0, Seq::empty(), Seq::empty())
}

/// The token texts selected by a list of character ranges.
pub open spec fn bounds_tokens(s: Seq<char>, bs: Seq<(usize, usize)>) -> Seq<Seq<char>> {
    bs.map_values(|p: (usize, usize)| s.subrange(p.0 as int, p.1 as int))
}

/// Computes the character ranges of the whitespace-separated tokens of `s`.
fn whitespace_token_bounds(s: &str) -> (r: Vec<(usize, usize)>)
    ensures
        bounds_tokens(s@, r@) == tokens_of(s@),
        forall|k: int| 0 <= k < r@.len() ==> 0 <= (#[trigger] r@[k]).0 <= r@[k].1 <= s@.len(),
{
    let n = s.unicode_len();
    let mut bounds: Vec<(usize, usize)> = Vec::new();
    proof {
        assert(bounds_tokens(s@, bounds@) =~= Seq::<Seq<char>>::empty());
    }
    let mut i: usize = 0;
    let mut cur_start: usize = 0;
    let mut in_token = false;
    while i < n
        invariant
            0 <= i <= n,
            n == s@.len(),
            forall|k: int|
                0 <= k < bounds@.len() ==> 0 <= (#[trigger] bounds@[k]).0 <= bounds@[k].1 <= n,
            in_token ==> 0 <= cur_start < i && tokens_of(s@) == split_ws(
                s@,
                i as int,
                s@.subrange(cur_start as int, i as int),
                bounds_tokens(s@, bounds@),
            ),
            !in_token ==> tokens_of(s@) == split_ws(
                s@,
                i as int,
                Seq::empty(),
                bounds_tokens(s@, bounds@),
            ),
        decreases n - i,
    {
        let c = s.get_char(i);
        if c == ' ' || c == '\t' || c == '\n' || c == '\r' {
            if in_token {
                proof {
                    assert(bounds_tokens(s@, bounds@.push((cur_start, i))) =~= bounds_tokens(
                        s@,
                        bounds@,
                    ).push(s@.subrange(cur_start as int, i as int)));
                }
                bounds.push((cur_start, i));
                in_token = false;
            }
        } else {
            if !in_token {
                cur_start = i;
                in_token = true;
                proof {
                    assert(s@.subrange(cur_start as int, i as int + 1) =~= Seq::<
                        char,
                    >::empty().push(s@[i as int]));
                }
            } else {
                proof {
                    assert(s@.subrange(cur_start as int, i as int + 1) =~= s@.subrange(
                        cur_start as int,
                        i as int,
                    ).push(s@[i as int]));
                }
            }
        }
        i = i + 1;
    }
    if in_token {
        proof {
            assert(bounds_tokens(s@, bounds@.push((cur_start, n))) =~= bounds_tokens(
                s@,
                bounds@,
            ).push(s@.subrange(cur_start as int, n as int)));
        }
        bounds.push((cur_start, n));
    }
    bounds
}

/// The piece denoted by one FEN letter, if any.
pub open spec fn piece_of_char(c: char) -> Option<BoardPiece> {
    if c == 'P' {
        Some(BoardPiece { piece_type: ChessPieces::Pawns, piece_color: PieceColor::White })
    } else if c == 'K' {
        Some(BoardPiece { piece_type: ChessPieces::Kings, piece_color: PieceColor::White })
    } else if c == 'Q' {
        Some(BoardPiece { piece_type: ChessPieces::Queens, piece_color: PieceColor::White })
    } else if c == 'B' {
        Some(BoardPiece { piece_type: ChessPieces::Bishops, piece_color: PieceColor::White })
    } else if c == 'N' {
        Some(BoardPiece { piece_type: ChessPieces::Knights, piece_color: PieceColor::White })
    } else if c == 'R' {
        Some(BoardPiece { piece_type: ChessPieces::Rooks, piece_color: PieceColor::White })
    } else if c == 'p' {
        Some(BoardPiece { piece_type: ChessPieces::Pawns, piece_color: PieceColor::Black })
    } else if c == 'k' {
        Some(BoardPiece { piece_type: ChessPieces::Kings, piece_color: PieceColor::Black })
    } else if c == 'q' {
        Some(BoardPiece { piece_type: ChessPieces::Queens, piece_color: PieceColor::Black })
    } else if c == 'b' {
        Some(BoardPiece { piece_type: ChessPieces::Bishops, piece_color: PieceColor::Black })
    } else if c == 'n' {
        Some(BoardPiece { piece_type: ChessPieces::Knights, piece_color: PieceColor::Black })
    } else if c == 'r' {
        Some(BoardPiece { piece_type: ChessPieces::Rooks, piece_color: PieceColor::Black })
    } else {
        None
    }
}

/// The all-empty board.
pub open spec fn empty_board() -> Seq<BoardPiece> {
    Seq::new(64, |i: int| empty_piece())
}

/// The file counter saturates far above any placeable value, so that runs
/// of digits cannot overflow it; any value past the board already rejects
/// every later placement on the same rank.
pub open spec fn sat_file(f: int) -> int {
    if f > 100 {
        100
    } else {
        f
    }
}

/// Folds the FEN board field left to right: `/` moves to the next rank
/// down, a digit skips files, a piece letter places the piece. Fails on an
/// unknown letter, on a rank below the board, or on a placement off the
/// board.
pub open spec fn board_fold(
    s: Seq<char>,
    i: int,
    file: int,
    rank: int,
    b: Seq<BoardPiece>,
) -> Option<Seq<BoardPiece>>
    decreases s.len() - i,
{
    if i >= s.len() {
        Some(b)
    } else {
        let c = s[i];
        let cu = c as int;
        if c == '/' {
            if rank == 0 {
                None
            } else {
                board_fold(s, i + 1, 0, rank - 1, b)
            }
        } else if ('0' as int) <= cu && cu <= ('9' as int) {
            board_fold(s, i + 1, sat_file(file + (cu - ('0' as int))), rank, b)
        } else {
            match piece_of_char(c) {
                Option::Some(p) => {
                    let idx = rank * 8 + file;
                    if 0 <= idx < 64 {
                        board_fold(s, i + 1, sat_file(file + 1), rank, b.update(idx, p))
                    } else {
                        None
                    }
                },
                Option::None => None,
            }
        }
    }
}

/// Decodes the FEN board field into a 64-square board.
pub fn load_position_from_fen(fen: String) -> (r: Result<Vec<BoardPiece>, &'static str>)
    ensures
        match board_fold(fen@, 0, 0, 7, empty_board()) {
            Option::Some(b) => r matches Ok(v) && v@ == b,
            Option::None => r is Err,
        },
{
    let fen_str = fen.as_str();
    let ghost s = fen_str@;

    let mut board: Vec<BoardPiece> = Vec::new();
    let mut j: usize = 0;
    while j < 64
        invariant
            0 <= j <= 64,
            board@.len() == j,
            forall|k: int| 0 <= k < j ==> board@[k] == empty_piece(),
        decreases 64 - j,
    {
        board.push(
            BoardPiece { piece_type: ChessPieces::Empty, piece_color: PieceColor::NoColor },
        );
        j = j + 1;
    }
    proof {
        assert(board@ =~= empty_board());
    }

    let n = fen_str.unicode_len();
    let mut file: u32 = 0;
    let mut rank: u32 = 7;
    let mut i: usize = 0;
    while i < n
        invariant
            0 <= i <= n,
            n == s.len(),
            s == fen_str@,
            s == fen@,
            0 <= rank <= 7,
            0 <= file <= 100,
            board@.len() == 64,
            board_fold(s, 0, 0, 7, empty_board()) == board_fold(
                s,
                i as int,
                file as int,
                rank as int,
                board@,
            ),
        decreases n - i,
    {
        let letter = fen_str.get_char(i);
        if letter == '/' {
            if rank == 0 {
                return Err("You probably have too many ranks in your fen string.");
            }
            rank = rank - 1;
            file = 0;
        } else {
            let cu = letter as u32;
            if cu >= ('0' as u32) && cu <= ('9' as u32) {
                let f2: u32 = file + (cu - ('0' as u32));
                file = if f2 > 100 {
                    100
                } else {
                    f2
                };
            } else {
                let piece: Option<BoardPiece> = match letter {
                    'P' => Some(
                        BoardPiece {
                            piece_type: ChessPieces::Pawns,
                            piece_color: PieceColor::White,
                        },
                    ),
                    'K' => Some(
                        BoardPiece {
                            piece_type: ChessPieces::Kings,
                            piece_color: PieceColor::White,
                        },
                    ),
                    'Q' => Some(
                        BoardPiece {
                            piece_type: ChessPieces::Queens,
                            piece_color: PieceColor::White,
                        },
                    ),
                    'B' => Some(
                        BoardPiece {
                            piece_type: ChessPieces::Bishops,
                            piece_color: PieceColor::White,
                        },
                    ),
                    'N' => Some(
                        BoardPiece {
                            piece_type: ChessPieces::Knights,
                            piece_color: PieceColor::White,
                        },
                    ),
                    'R' => Some(
                        BoardPiece {
                            piece_type: ChessPieces::Rooks,
                            piece_color: PieceColor::White,
                        },
                    ),
                    'p' => Some(
                        BoardPiece {
                            piece_type: ChessPieces::Pawns,
                            piece_color: PieceColor::Black,
                        },
                    ),
                    'k' => Some(
                        BoardPiece {
                            piece_type: ChessPieces::Kings,
                            piece_color: PieceColor::Black,
                        },
                    ),
                    'q' => Some(
                        BoardPiece {
                            piece_type: ChessPieces::Queens,
                            piece_color: PieceColor::Black,
                        },
                    ),
                    'b' => Some(
                        BoardPiece {
                            piece_type: ChessPieces::Bishops,
                            piece_color: PieceColor::Black,
                        },
                    ),
                    'n' => Some(
                        BoardPiece {
                            piece_type: ChessPieces::Knights,
                            piece_color: PieceColor::Black,
                        },
                    ),
                    'r' => Some(
                        BoardPiece {
                            piece_type: ChessPieces::Rooks,
                            piece_color: PieceColor::Black,
                        },
                    ),
                    _ => None,
                };
                proof {
                    assert(piece == piece_of_char(s[i as int]));
                }
                match piece {
                    Some(p) => {
                        let idx: u32 = rank * 8 + file;
                        if idx >= 64 {
                            return Err("You probably got a wrong letter in your fen string.");
                        }
                        board.set(idx as usize, p);
                        file = if file + 1 > 100 {
                            100
                        } else {
                            file + 1
                        };
                    },
                    None => {
                        return Err("You probably got a wrong letter in your fen string.");
                    },
                }
            }
        }
        i = i + 1;
    }
    Ok(board)
}

/// The side to move denoted by the turn field, if any.
pub open spec fn turn_of(s: Seq<char>) -> Option<PieceColor> {
    if s.len() == 0 {
        None
    } else if s[0] == 'w' {
        Some(PieceColor::White)
    } else if s[0] == 'b' {
        Some(PieceColor::Black)
    } else {
        None
    }
}

/// Decodes the turn field.
pub fn parse_turn(part: &str) -> (r: Result<PieceColor, &'static str>)
    ensures
        match turn_of(part@) {
            Option::Some(c) => r == Ok::<PieceColor, &'static str>(c),
            Option::None => r is Err,
        },
{
    let n = part.unicode_len();
    if n == 0 {
        return Err("Wrong input for turns.");
    }
    let c = part.get_char(0);
    if c == 'w' {
        Ok(PieceColor::White)
    } else if c == 'b' {
        Ok(PieceColor::Black)
    } else {
        Err("Wrong input for turns.")
    }
}

/// Folds the castling field: letters matching the given color switch the
/// corresponding right on; everything else is ignored.
pub open spec fn castle_fold(s: Seq<char>, i: int, q: bool, k: bool, color: PieceColor) -> Castle
    decreases s.len() - i,
{
    if i >= s.len() {
        Castle { queenside: q, kingside: k }
    } else {
        let q2 = q || (s[i] == 'Q' && color == PieceColor::White) || (s[i] == 'q' && color
            == PieceColor::Black);
        let k2 = k || (s[i] == 'K' && color == PieceColor::White) || (s[i] == 'k' && color
            == PieceColor::Black);
        castle_fold(s, i + 1, q2, k2, color)
    }
}

/// Decodes the castling field relative to the side to move.
pub fn parse_castle(part: &str, color: PieceColor) -> (r: Result<Castle, &'static str>)
    ensures
        r == Ok::<Castle, &'static str>(castle_fold(part@, 0, false, false, color)),
{
    let n = part.unicode_len();
    let mut queenside = false;
    let mut kingside = false;
    let mut i: usize = 0;
    while i < n
        invariant
            0 <= i <= n,
            n == part@.len(),
            castle_fold(part@, 0, false, false, color) == castle_fold(
                part@,
                i as int,
                queenside,
                kingside,
                color,
            ),
        decreases n - i,
    {
        let c = part.get_char(i);
        if (c == 'Q' && color == PieceColor::White) || (c == 'q' && color == PieceColor::Black) {
            queenside = true;
        }
        if (c == 'K' && color == PieceColor::White) || (c == 'k' && color == PieceColor::Black) {
            kingside = true;
        }
        i = i + 1;
    }
    Ok(Castle { queenside, kingside })
}

/// The en-passant field: `-` means no target; otherwise a file letter and
/// a rank digit name the target square.
pub open spec fn ep_of(s: Seq<char>) -> Option<Option<i16>> {
    if s.len() == 1 && s[0] == '-' {
        Some(None)
    } else if s.len() < 2 {
        None
    } else {
        match file_number_of_char(s[0]) {
            Option::None => None,
            Option::Some(file_number) => {
                let cu = s[1] as int;
                if ('1' as int) <= cu && cu <= ('8' as int) {
                    Some(Some((((cu - ('1' as int)) * 8 + (file_number - 1)) as i16)))
                } else {
                    None
                }
            },
        }
    }
}

/// Decodes the en-passant field with the standard algebraic file mapping.
pub fn parse_en_passant(part: &str) -> (r: Result<Option<i16>, &'static str>)
    ensures
        match ep_of(part@) {
            Option::Some(v) => r == Ok::<Option<i16>, &'static str>(v),
            Option::None => r is Err,
        },
{
    let n = part.unicode_len();
    if n == 1 && part.get_char(0) == '-' {
        return Ok(None);
    }
    if n < 2 {
        return Err("Invalid en passant square");
    }
    let file_char = part.get_char(0);
    let rank_char = part.get_char(1);
    let file_number = match crate::chess_state::map_char_to_number(file_char) {
        Some(v) => v,
        None => {
            return Err("Invalid file");
        },
    };
    let ru = rank_char as u32;
    if ru >= ('1' as u32) && ru <= ('8' as u32) {
        let square: u32 = (ru - ('1' as u32)) * 8 + (file_number - 1);
        Ok(Some(square as i16))
    } else {
        Err("Invalid rank")
    }
}

/// The parts of a decoded FEN string: board, side to move, castling rights
/// and en-passant target. Fields past the known ones are ignored.
pub open spec fn fen_parts_of(s: Seq<char>) -> Option<
    (Seq<BoardPiece>, PieceColor, Castle, Option<i16>),
> {
    let toks = tokens_of(s);
    if toks.len() < 2 {
        None
    } else {
        match board_fold(toks[0], 0, 0, 7, empty_board()) {
            Option::None => None,
            Option::Some(b) => match turn_of(toks[1]) {
                Option::None => None,
                Option::Some(color) => {
                    let castle = if toks.len() >= 3 {
                        castle_fold(toks[2], 0, false, false, color)
                    } else {
                        Castle { queenside: false, kingside: false }
                    };
                    if toks.len() >= 4 {
                        match ep_of(toks[3]) {
                            Option::None => None,
                            Option::Some(ep) => Some((b, color, castle, ep)),
                        }
                    } else {
                        Some((b, color, castle, None))
                    }
                },
            },
        }
    }
}

/// Decodes a FEN-like string into a position: board field, side to move,
/// castling rights read relative to the side to move, and the en-passant
/// target.
pub fn load_fen_state(fen: String) -> (r: Result<ChessState, &'static str>)
    ensures
        match fen_parts_of(fen@) {
            Option::Some(parts) => r matches Ok(st) && st.board@ == parts.0
                && st.color_to_move == parts.1 && st.is_able_to_castle == parts.2
                && st.en_passant_target == parts.3 && state_wf(st),
            Option::None => r is Err,
        },
{
    let fen_str = fen.as_str();
    let bounds = whitespace_token_bounds(fen_str);
    let ghost toks = tokens_of(fen@);

    if bounds.len() < 2 {
        return Err("Invalid FEN string");
    }

    let b0 = bounds[0];
    let board_part = fen_str.substring_char(b0.0, b0.1);
    proof {
        assert(board_part@ == toks[0]);
    }
    let board = match load_position_from_fen(String::from_str(board_part)) {
        Ok(v) => v,
        Err(msg) => {
            return Err(msg);
        },
    };
    proof {
        assert(board@.len() == empty_board().len()) by {
            lemma_board_fold_len(board_part@, 0, 0, 7, empty_board());
        }
    }

    let b1 = bounds[1];
    let turn_part = fen_str.substring_char(b1.0, b1.1);
    proof {
        assert(turn_part@ == toks[1]);
    }
    let color_to_move = match parse_turn(turn_part) {
        Ok(v) => v,
        Err(msg) => {
            return Err(msg);
        },
    };

    let is_able_to_castle = if bounds.len() >= 3 {
        let b2 = bounds[2];
        let castle_part = fen_str.substring_char(b2.0, b2.1);
        proof {
            assert(castle_part@ == toks[2]);
        }
        match parse_castle(castle_part, color_to_move) {
            Ok(v) => v,
            Err(msg) => {
                return Err(msg);
            },
        }
    } else {
        Castle { queenside: false, kingside: false }
    };

    let en_passant_target = if bounds.len() >= 4 {
        let b3 = bounds[3];
        let ep_part = fen_str.substring_char(b3.0, b3.1);
        proof {
            assert(ep_part@ == toks[3]);
        }
        match parse_en_passant(ep_part) {
            Ok(v) => v,
            Err(msg) => {
                return Err(msg);
            },
        }
    } else {
        None
    };

    Ok(ChessState { board, color_to_move, is_able_to_castle, en_passant_target })
}

/// A successful board fold keeps the board length.
proof fn lemma_board_fold_len(s: Seq<char>, i: int, file: int, rank: int, b: Seq<BoardPiece>)
    requires
        b.len() == 64,
        board_fold(s, i, file, rank, b) is Some,
    ensures
        board_fold(s, i, file, rank, b).unwrap().len() == b.len(),
    decreases s.len() - i,
{
    if i >= s.len() {
    } else {
        let c = s[i];
        let cu = c as int;
        if c == '/' {
            lemma_board_fold_len(s, i + 1, 0, rank - 1, b);
        } else if ('0' as int) <= cu && cu <= ('9' as int) {
            lemma_board_fold_len(s, i + 1, sat_file(file + (cu - ('0' as int))), rank, b);
        } else {
            match piece_of_char(c) {
                Option::Some(p) => {
                    let idx = rank * 8 + file;
                    if 0 <= idx < 64 {
                        lemma_board_fold_len(
                            s,
                            i + 1,
                            sat_file(file + 1),
                            rank,
                            b.update(idx, p),
                        );
                    }
                },
                Option::None => {},
            }
        }
    }
}

/// Position serialization is left to outside collaborators; this encoder
/// stands in for it and yields the empty string.
pub fn save_fen_state(state: ChessState) -> (r: Result<String, &'static str>)
    ensures
        r matches Ok(out) && out@.len() == 0,
{
    Ok(String::new())
}

} // verus!
