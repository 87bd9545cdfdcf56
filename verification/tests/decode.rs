use chess_core::chess_state::{
    algebraic_notation_decoder, convert_algebraic_snippet, map_char_to_number,
};
use chess_core::color::{is_color, is_not_empty, is_opponent_color};
use chess_core::fen::{load_fen_state, parse_castle, parse_en_passant, parse_turn, save_fen_state};
use chess_core::types::{BoardPiece, ChessPieces, PieceColor};

fn piece(piece_type: ChessPieces, piece_color: PieceColor) -> BoardPiece {
    BoardPiece {
        piece_type,
        piece_color,
    }
}

#[test]
fn test_algebraic_notation_decoder() {
    assert_eq!(algebraic_notation_decoder("e2e4"), Ok((12, 28)));
    assert_eq!(algebraic_notation_decoder("a1h8"), Ok((0, 63)));
    assert_eq!(algebraic_notation_decoder("h7h5"), Ok((55, 39)));
    assert!(algebraic_notation_decoder("").is_err());
    assert!(algebraic_notation_decoder("e").is_err());
    assert!(algebraic_notation_decoder("e2x4").is_err());
    assert!(algebraic_notation_decoder("e9e9").is_err());
}

#[test]
fn test_convert_algebraic_snippet() {
    assert_eq!(convert_algebraic_snippet("e2"), Ok(12));
    assert_eq!(convert_algebraic_snippet("H8"), Ok(63));
    assert_eq!(convert_algebraic_snippet("a1"), Ok(0));
    assert_eq!(convert_algebraic_snippet("e2\n"), Ok(12));
    assert!(convert_algebraic_snippet("e-").is_err());
}

#[test]
fn test_map_char_to_number() {
    assert_eq!(map_char_to_number('a'), Some(1));
    assert_eq!(map_char_to_number('A'), Some(1));
    assert_eq!(map_char_to_number('h'), Some(8));
    assert_eq!(map_char_to_number('z'), None);
    assert_eq!(map_char_to_number('1'), None);
}

#[test]
fn test_color_helpers() {
    assert!(is_color(&PieceColor::White, &PieceColor::White));
    assert!(!is_color(&PieceColor::White, &PieceColor::Black));
    assert!(is_opponent_color(&PieceColor::White, &PieceColor::Black));
    assert!(is_opponent_color(&PieceColor::Black, &PieceColor::White));
    assert!(!is_opponent_color(&PieceColor::White, &PieceColor::White));
    assert!(!is_opponent_color(&PieceColor::NoColor, &PieceColor::White));
    assert!(!is_opponent_color(&PieceColor::White, &PieceColor::NoColor));
    assert!(is_not_empty(&PieceColor::Black));
    assert!(!is_not_empty(&PieceColor::NoColor));
}

#[test]
fn test_load_fen_state_initial_position() {
    let state = load_fen_state(
        "rnbqkbnr/pppppppp/8/8/8/8/PPPPPPPP/RNBQKBNR w KQkq - 0 1".to_string(),
    )
    .unwrap();
    assert_eq!(state.color_to_move, PieceColor::White);
    assert!(state.is_able_to_castle.queenside);
    assert!(state.is_able_to_castle.kingside);
    assert_eq!(state.en_passant_target, None);
    assert_eq!(state.board[0], piece(ChessPieces::Rooks, PieceColor::White));
    assert_eq!(state.board[4], piece(ChessPieces::Kings, PieceColor::White));
    assert_eq!(state.board[12], piece(ChessPieces::Pawns, PieceColor::White));
    assert_eq!(state.board[27], piece(ChessPieces::Empty, PieceColor::NoColor));
    assert_eq!(state.board[57], piece(ChessPieces::Knights, PieceColor::Black));
    assert_eq!(state.board[60], piece(ChessPieces::Kings, PieceColor::Black));
}

#[test]
fn test_load_fen_state_castle_rights_follow_turn_color() {
    let state = load_fen_state(
        "rnbqkbnr/pppppppp/8/8/8/8/PPPPPPPP/RNBQKBNR b Kq - 0 1".to_string(),
    )
    .unwrap();
    assert_eq!(state.color_to_move, PieceColor::Black);
    // black to move: only the lowercase flag counts
    assert!(state.is_able_to_castle.queenside);
    assert!(!state.is_able_to_castle.kingside);
}

#[test]
fn test_load_fen_state_en_passant_square() {
    let state = load_fen_state(
        "rnbqkbnr/pppppppp/8/8/4P3/8/PPPP1PPP/RNBQKBNR b KQkq e3 0 1".to_string(),
    )
    .unwrap();
    assert_eq!(state.en_passant_target, Some(20));
}

#[test]
fn test_load_fen_state_rejects_bad_input() {
    assert!(load_fen_state("".to_string()).is_err());
    assert!(load_fen_state("rnbqkbnr".to_string()).is_err());
    assert!(load_fen_state("xyz w".to_string()).is_err());
    assert!(load_fen_state("4k3/8/8/8/8/8/8/4K3 m".to_string()).is_err());
}

#[test]
fn test_parse_turn() {
    assert_eq!(parse_turn("w"), Ok(PieceColor::White));
    assert_eq!(parse_turn("b"), Ok(PieceColor::Black));
    assert!(parse_turn("m").is_err());
    assert!(parse_turn("").is_err());
}

#[test]
fn test_parse_castle() {
    let c = parse_castle("KQkq", PieceColor::White).unwrap();
    assert!(c.queenside && c.kingside);
    let c = parse_castle("kq", PieceColor::White).unwrap();
    assert!(!c.queenside && !c.kingside);
    let c = parse_castle("kq", PieceColor::Black).unwrap();
    assert!(c.queenside && c.kingside);
    let c = parse_castle("-", PieceColor::White).unwrap();
    assert!(!c.queenside && !c.kingside);
}

#[test]
fn test_parse_en_passant() {
    assert_eq!(parse_en_passant("-"), Ok(None));
    assert_eq!(parse_en_passant("e3"), Ok(Some(20)));
    assert_eq!(parse_en_passant("a6"), Ok(Some(40)));
    assert_eq!(parse_en_passant("h6"), Ok(Some(47)));
    assert!(parse_en_passant("z3").is_err());
    assert!(parse_en_passant("e9").is_err());
    assert!(parse_en_passant("e").is_err());
}

#[test]
fn test_save_fen_state_yields_empty_string() {
    let state = load_fen_state("4k3/8/8/8/8/8/8/4K3 w".to_string()).unwrap();
    assert_eq!(save_fen_state(state), Ok(String::new()));
}
