use chess_core::chess_state::{make_move, ChessState};
use chess_core::generate_moves::{generate_moves, precompute_squares_to_edge};
use chess_core::fen::load_fen_state;
use chess_core::types::{BoardPiece, ChessPieces, Move, MoveType, PieceColor};

fn piece(piece_type: ChessPieces, piece_color: PieceColor) -> BoardPiece {
    BoardPiece {
        piece_type,
        piece_color,
    }
}

fn empty_state() -> ChessState {
    let mut state = ChessState::default();
    state.color_to_move = PieceColor::White;
    state
}

fn targets_of(moves: &[Move], start: i16) -> Vec<i16> {
    moves
        .iter()
        .filter(|m| m.start_square == start)
        .map(|m| m.target_square)
        .collect()
}

#[test]
fn test_edge_distance_table() {
    let table = precompute_squares_to_edge();
    // corner a1: north, south, west, east, nw, se, ne, sw
    assert_eq!(table[0], vec![7, 0, 0, 7, 0, 0, 7, 0]);
    // d5 = square 35 (rank 4, file 3)
    assert_eq!(table[35], vec![3, 4, 3, 4, 3, 4, 3, 3]);
    // h8 = square 63
    assert_eq!(table[63], vec![0, 7, 7, 0, 0, 0, 0, 7]);
}

#[test]
fn test_rook_ray_stops_at_friendly_piece() {
    let mut state = empty_state();
    state.board[0] = piece(ChessPieces::Rooks, PieceColor::White);
    state.board[16] = piece(ChessPieces::Pawns, PieceColor::White);
    let table = precompute_squares_to_edge();
    let (_, moves) = generate_moves(&state, &PieceColor::White, &table);
    let rook_targets = targets_of(&moves, 0);
    // north: a2 only; a3 holds a friendly pawn, a4 is beyond it
    assert!(rook_targets.contains(&8));
    assert!(!rook_targets.contains(&16));
    assert!(!rook_targets.contains(&24));
}

#[test]
fn test_rook_ray_stops_after_capture() {
    let mut state = empty_state();
    state.board[0] = piece(ChessPieces::Rooks, PieceColor::White);
    state.board[16] = piece(ChessPieces::Pawns, PieceColor::Black);
    let table = precompute_squares_to_edge();
    let (_, moves) = generate_moves(&state, &PieceColor::White, &table);
    let rook_targets = targets_of(&moves, 0);
    // north: a2 and the capture on a3, nothing past the first occupied square
    assert!(rook_targets.contains(&8));
    assert!(rook_targets.contains(&16));
    assert!(!rook_targets.contains(&24));
    assert!(!rook_targets.contains(&32));
}

#[test]
fn test_knight_moves_from_corner_area() {
    let mut state = empty_state();
    state.board[1] = piece(ChessPieces::Knights, PieceColor::White);
    let table = precompute_squares_to_edge();
    let (pieces, moves) = generate_moves(&state, &PieceColor::White, &table);
    assert_eq!(pieces, vec![(ChessPieces::Knights, 1usize)]);
    let mut knight_targets = targets_of(&moves, 1);
    knight_targets.sort();
    assert_eq!(knight_targets, vec![11, 16, 18]);
}

#[test]
fn test_pawn_single_and_double_push() {
    let mut state = empty_state();
    state.board[12] = piece(ChessPieces::Pawns, PieceColor::White);
    let table = precompute_squares_to_edge();
    let (_, moves) = generate_moves(&state, &PieceColor::White, &table);
    assert_eq!(
        moves,
        vec![
            Move {
                start_square: 12,
                target_square: 20,
                move_type: MoveType::NoCapture,
            },
            Move {
                start_square: 12,
                target_square: 28,
                move_type: MoveType::NoCapture,
            },
        ]
    );
}

#[test]
fn test_pawn_push_blocked() {
    let mut state = empty_state();
    state.board[12] = piece(ChessPieces::Pawns, PieceColor::White);
    state.board[20] = piece(ChessPieces::Pawns, PieceColor::Black);
    let table = precompute_squares_to_edge();
    let (_, moves) = generate_moves(&state, &PieceColor::White, &table);
    // the push is blocked and e3 cannot be captured straight ahead
    assert!(targets_of(&moves, 12).is_empty());
}

#[test]
fn test_pawn_capture_requires_enemy_occupant() {
    let mut state = empty_state();
    state.board[12] = piece(ChessPieces::Pawns, PieceColor::White);
    state.board[11] = piece(ChessPieces::Bishops, PieceColor::White);
    state.board[21] = piece(ChessPieces::Knights, PieceColor::Black);
    state.board[19] = piece(ChessPieces::Knights, PieceColor::White);
    let table = precompute_squares_to_edge();
    let (_, moves) = generate_moves(&state, &PieceColor::White, &table);
    let pawn_targets = targets_of(&moves, 12);
    // f3 holds an enemy knight: capture; d3 holds a friendly knight: none
    assert!(pawn_targets.contains(&21));
    assert!(!pawn_targets.contains(&19));
}

#[test]
fn test_pawn_file_wrap_suppressed() {
    let mut state = empty_state();
    state.board[8] = piece(ChessPieces::Pawns, PieceColor::White);
    state.board[15] = piece(ChessPieces::Rooks, PieceColor::Black);
    let table = precompute_squares_to_edge();
    let (_, moves) = generate_moves(&state, &PieceColor::White, &table);
    // a2 + 7 lands on h2 across the board edge: suppressed
    assert!(!targets_of(&moves, 8).contains(&15));
}

#[test]
fn test_pawn_en_passant_target() {
    let mut state = empty_state();
    state.board[36] = piece(ChessPieces::Pawns, PieceColor::White);
    state.board[35] = piece(ChessPieces::Pawns, PieceColor::Black);
    state.en_passant_target = Some(43);
    let table = precompute_squares_to_edge();
    let (_, moves) = generate_moves(&state, &PieceColor::White, &table);
    assert!(moves.contains(&Move {
        start_square: 36,
        target_square: 43,
        move_type: MoveType::EnPassant,
    }));
}

#[test]
fn test_king_castle_generation_and_apply() {
    let state = load_fen_state("8/8/8/8/8/8/8/R3K2R w KQ - 0 1".to_string()).unwrap();
    let table = precompute_squares_to_edge();
    let (_, moves) = generate_moves(&state, &PieceColor::White, &table);
    // king on e1 offers castle targets c1 and g1
    assert!(moves.contains(&Move {
        start_square: 4,
        target_square: 2,
        move_type: MoveType::Castle,
    }));
    assert!(moves.contains(&Move {
        start_square: 4,
        target_square: 6,
        move_type: MoveType::Castle,
    }));

    // applying the kingside castle puts the king on g1 and moves h1 -> f1
    let after = make_move(&state, &moves, 4, 6).unwrap();
    assert_eq!(after.board[6], piece(ChessPieces::Kings, PieceColor::White));
    assert_eq!(after.board[5], piece(ChessPieces::Rooks, PieceColor::White));
    assert_eq!(after.board[7], piece(ChessPieces::Empty, PieceColor::NoColor));
    assert_eq!(after.board[4], piece(ChessPieces::Empty, PieceColor::NoColor));
    // the queenside rook is untouched
    assert_eq!(after.board[0], piece(ChessPieces::Rooks, PieceColor::White));
}

#[test]
fn test_castle_blocked_by_piece_between() {
    let state = load_fen_state("8/8/8/8/8/8/8/R2QK2R w KQ - 0 1".to_string()).unwrap();
    let table = precompute_squares_to_edge();
    let (_, moves) = generate_moves(&state, &PieceColor::White, &table);
    assert!(!moves.contains(&Move {
        start_square: 4,
        target_square: 2,
        move_type: MoveType::Castle,
    }));
    assert!(moves.contains(&Move {
        start_square: 4,
        target_square: 6,
        move_type: MoveType::Castle,
    }));
}

#[test]
fn test_castle_needs_rights() {
    let state = load_fen_state("8/8/8/8/8/8/8/R3K2R w - - 0 1".to_string()).unwrap();
    let table = precompute_squares_to_edge();
    let (_, moves) = generate_moves(&state, &PieceColor::White, &table);
    assert!(moves.iter().all(|m| m.move_type != MoveType::Castle));
}
