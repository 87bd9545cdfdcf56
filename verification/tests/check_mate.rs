use chess_core::checks::detect_check;
use chess_core::color::switch_color;
use chess_core::fen::load_fen_state;
use chess_core::generate_moves::{generate_moves, precompute_squares_to_edge};
use chess_core::mate::{detect_mate, Mate};
use chess_core::types::{boards_equal, PieceColor};

#[test]
fn test_in_check_queen_attacks_king() {
    // the white queen on h5 reaches e8 along the h5-e8 diagonal
    let state = load_fen_state("4k3/8/8/7Q/8/8/8/4K3 w".to_string()).unwrap();
    let table = precompute_squares_to_edge();
    let (black_pieces, _) = generate_moves(&state, &PieceColor::Black, &table);
    let (_, white_moves) = generate_moves(&state, &PieceColor::White, &table);
    assert!(detect_check(&black_pieces, &white_moves));
}

#[test]
fn test_not_in_check_kings_only() {
    let state = load_fen_state("4k3/8/8/8/8/8/8/4K3 w".to_string()).unwrap();
    let table = precompute_squares_to_edge();
    let (black_pieces, _) = generate_moves(&state, &PieceColor::Black, &table);
    let (_, white_moves) = generate_moves(&state, &PieceColor::White, &table);
    assert!(!detect_check(&black_pieces, &white_moves));

    let (white_pieces, _) = generate_moves(&state, &PieceColor::White, &table);
    let (_, black_moves) = generate_moves(&state, &PieceColor::Black, &table);
    assert!(!detect_check(&white_pieces, &black_moves));
}

#[test]
fn test_checkmate_classification() {
    let state =
        load_fen_state("6k1/b7/8/8/5p2/7p/7P/r6K w - - 0 54".to_string()).unwrap();
    let table = precompute_squares_to_edge();
    assert_eq!(detect_mate(&state, &table), Mate::Checkmate);
}

#[test]
fn test_stalemate_classification() {
    // the same position without the black rook leaves white unchecked but
    // without any move that escapes check
    let state =
        load_fen_state("6k1/b7/8/8/5p2/7p/7P/7K w - - 0 54".to_string()).unwrap();
    let table = precompute_squares_to_edge();
    assert_eq!(detect_mate(&state, &table), Mate::Stalemate);
}

#[test]
fn test_normal_classification() {
    let state = load_fen_state(
        "rnbqkbnr/pppppppp/8/8/8/8/PPPPPPPP/RNBQKBNR w KQkq - 0 1".to_string(),
    )
    .unwrap();
    let table = precompute_squares_to_edge();
    assert_eq!(detect_mate(&state, &table), Mate::No);
}

#[test]
fn test_classification_is_repeatable_and_nondestructive() {
    let state =
        load_fen_state("6k1/b7/8/8/5p2/7p/7P/r6K w - - 0 54".to_string()).unwrap();
    let copy = state.clone();
    let table = precompute_squares_to_edge();
    let first = detect_mate(&state, &table);
    let second = detect_mate(&state, &table);
    assert_eq!(first, second);
    assert!(boards_equal(&state.board, &copy.board));
    assert_eq!(state.color_to_move, copy.color_to_move);
    assert_eq!(state.en_passant_target, copy.en_passant_target);
}

#[test]
fn test_switch_color() {
    assert_eq!(switch_color(&PieceColor::White), PieceColor::Black);
    assert_eq!(switch_color(&PieceColor::Black), PieceColor::White);
    assert_eq!(switch_color(&PieceColor::NoColor), PieceColor::NoColor);
}
