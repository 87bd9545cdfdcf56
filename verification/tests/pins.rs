use chess_core::chess_state::ChessState;
use chess_core::generate_moves::{generate_moves, precompute_squares_to_edge};
use chess_core::pin::{find_pinned_pieces_in_board, find_pinned_pieces_in_square};
use chess_core::types::{BoardPiece, ChessPieces, PieceColor};

fn piece(piece_type: ChessPieces, piece_color: PieceColor) -> BoardPiece {
    BoardPiece {
        piece_type,
        piece_color,
    }
}

fn pin_position() -> ChessState {
    // friendly rook d1, enemy bishop d5, enemy king d8, empty between
    let mut state = ChessState::default();
    state.color_to_move = PieceColor::White;
    state.board[3] = piece(ChessPieces::Rooks, PieceColor::White);
    state.board[35] = piece(ChessPieces::Bishops, PieceColor::Black);
    state.board[59] = piece(ChessPieces::Kings, PieceColor::Black);
    state
}

#[test]
fn test_bishop_pinned_along_file() {
    let state = pin_position();
    let table = precompute_squares_to_edge();
    let pinned = find_pinned_pieces_in_square(&state.board, 3, &table);
    assert_eq!(pinned, vec![(8, ChessPieces::Bishops, PieceColor::Black)]);
}

#[test]
fn test_second_piece_between_cancels_pin() {
    let mut state = pin_position();
    state.board[43] = piece(ChessPieces::Knights, PieceColor::Black);
    let table = precompute_squares_to_edge();
    let pinned = find_pinned_pieces_in_square(&state.board, 3, &table);
    assert!(pinned.is_empty());
}

#[test]
fn test_friendly_piece_on_ray_is_walked_past() {
    // a friendly pawn between the rook and the bishop does not block the
    // pin ray
    let mut state = pin_position();
    state.board[11] = piece(ChessPieces::Pawns, PieceColor::White);
    let table = precompute_squares_to_edge();
    let pinned = find_pinned_pieces_in_square(&state.board, 3, &table);
    assert_eq!(pinned, vec![(8, ChessPieces::Bishops, PieceColor::Black)]);
}

#[test]
fn test_no_king_on_ray_yields_no_pin() {
    let mut state = pin_position();
    state.board[59] = piece(ChessPieces::Empty, PieceColor::NoColor);
    let table = precompute_squares_to_edge();
    let pinned = find_pinned_pieces_in_square(&state.board, 3, &table);
    assert!(pinned.is_empty());
}

#[test]
fn test_pin_search_over_move_list() {
    let state = pin_position();
    let table = precompute_squares_to_edge();
    let (_, moves) = generate_moves(&state, &PieceColor::White, &table);
    let pinned = find_pinned_pieces_in_board(&state.board, &moves, &table);
    // the search runs once per move of the rook, reporting the same pin
    assert!(!pinned.is_empty());
    assert!(pinned
        .iter()
        .all(|rec| *rec == (8, ChessPieces::Bishops, PieceColor::Black)));
}
