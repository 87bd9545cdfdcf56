use chess_core::checks::unmake_move_based_on_check;
use chess_core::chess_state::{make_move, unmake_move, ChessState};
use chess_core::error_types::MoveError;
use chess_core::fen::load_fen_state;
use chess_core::generate_moves::{generate_moves, precompute_squares_to_edge};
use chess_core::types::{boards_equal, BoardPiece, ChessPieces, Move, MoveType, PieceColor};

fn piece(piece_type: ChessPieces, piece_color: PieceColor) -> BoardPiece {
    BoardPiece {
        piece_type,
        piece_color,
    }
}

const INITIAL: &str = "rnbqkbnr/pppppppp/8/8/8/8/PPPPPPPP/RNBQKBNR w KQkq - 0 1";

#[test]
fn test_make_move_pawn_push() {
    let state = load_fen_state(INITIAL.to_string()).unwrap();
    let table = precompute_squares_to_edge();
    let (_, moves) = generate_moves(&state, &PieceColor::White, &table);
    let after = make_move(&state, &moves, 12, 28).unwrap();
    assert_eq!(after.board[28], piece(ChessPieces::Pawns, PieceColor::White));
    assert_eq!(after.board[12], piece(ChessPieces::Empty, PieceColor::NoColor));
    // the applier changes nothing else
    assert_eq!(after.color_to_move, state.color_to_move);
    assert_eq!(after.en_passant_target, state.en_passant_target);
    for sq in 0..64 {
        if sq != 12 && sq != 28 {
            assert_eq!(after.board[sq], state.board[sq]);
        }
    }
}

#[test]
fn test_make_move_absent_from_list_is_illegal() {
    let state = load_fen_state(INITIAL.to_string()).unwrap();
    let table = precompute_squares_to_edge();
    let (_, moves) = generate_moves(&state, &PieceColor::White, &table);
    // a1 to d4 is no generated move
    assert_eq!(
        make_move(&state, &moves, 0, 27).unwrap_err(),
        MoveError::IllegalMove
    );
    // the caller's position is untouched
    let reloaded = load_fen_state(INITIAL.to_string()).unwrap();
    assert!(boards_equal(&state.board, &reloaded.board));
}

#[test]
fn test_no_capture_move_onto_occupied_square_fails() {
    // a NoCapture pawn move applied against a position whose target square
    // is occupied fails with IllegalMove
    let state = load_fen_state("4k3/8/8/8/8/4p3/4P3/4K3 w - - 0 1".to_string()).unwrap();
    let stale_moves = vec![Move {
        start_square: 12,
        target_square: 20,
        move_type: MoveType::NoCapture,
    }];
    assert_eq!(
        make_move(&state, &stale_moves, 12, 20).unwrap_err(),
        MoveError::IllegalMove
    );
}

#[test]
fn test_apply_then_unmake_restores_board() {
    let state = load_fen_state(INITIAL.to_string()).unwrap();
    let table = precompute_squares_to_edge();
    let (_, moves) = generate_moves(&state, &PieceColor::White, &table);
    let mov = Move {
        start_square: 12,
        target_square: 28,
        move_type: MoveType::NoCapture,
    };
    let prev_start_piece = state.board[12];
    let prev_target_piece = state.board[28];
    let mut after = make_move(&state, &moves, 12, 28).unwrap();
    assert!(!boards_equal(&after.board, &state.board));
    let undone = unmake_move(&mut after.board, (mov, prev_start_piece, prev_target_piece));
    assert_eq!(undone, Ok(()));
    assert!(boards_equal(&after.board, &state.board));
}

#[test]
fn test_apply_then_unmake_restores_board_after_capture() {
    // a white rook takes a black pawn, then the capture is unmade
    let state = load_fen_state("4k3/8/8/8/8/8/r7/R3K3 w - - 0 1".to_string()).unwrap();
    let table = precompute_squares_to_edge();
    let (_, moves) = generate_moves(&state, &PieceColor::White, &table);
    let prev_start_piece = state.board[0];
    let prev_target_piece = state.board[8];
    let mov = moves
        .iter()
        .find(|m| m.start_square == 0 && m.target_square == 8)
        .copied()
        .unwrap();
    let mut after = make_move(&state, &moves, 0, 8).unwrap();
    assert_eq!(after.board[8], piece(ChessPieces::Rooks, PieceColor::White));
    let undone = unmake_move(&mut after.board, (mov, prev_start_piece, prev_target_piece));
    assert_eq!(undone, Ok(()));
    assert!(boards_equal(&after.board, &state.board));
}

#[test]
fn test_unmake_defends_against_off_board_squares() {
    let state = load_fen_state(INITIAL.to_string()).unwrap();
    let mut board = state.board.clone();
    let bogus = Move {
        start_square: 99,
        target_square: 3,
        move_type: MoveType::Normal,
    };
    let empty = piece(ChessPieces::Empty, PieceColor::NoColor);
    assert_eq!(
        unmake_move(&mut board, (bogus, empty, empty)),
        Err(MoveError::OutOfBounds)
    );
    assert!(boards_equal(&board, &state.board));
}

#[test]
fn test_unmake_move_based_on_check() {
    let state = load_fen_state(INITIAL.to_string()).unwrap();
    let mov = Move {
        start_square: 12,
        target_square: 28,
        move_type: MoveType::NoCapture,
    };
    let prev_start_piece = state.board[12];
    let prev_target_piece = state.board[28];
    let table = precompute_squares_to_edge();
    let (_, moves) = generate_moves(&state, &PieceColor::White, &table);
    let mut after = make_move(&state, &moves, 12, 28).unwrap();

    // not in check: the board stays as played
    let kept = unmake_move_based_on_check(
        &mut after.board,
        Some((mov, prev_start_piece, prev_target_piece)),
        false,
    );
    assert_eq!(kept, Ok(()));
    assert!(!boards_equal(&after.board, &state.board));

    // in check: the move is undone and rejected
    let undone = unmake_move_based_on_check(
        &mut after.board,
        Some((mov, prev_start_piece, prev_target_piece)),
        true,
    );
    assert_eq!(undone, Err(MoveError::IllegalMove));
    assert!(boards_equal(&after.board, &state.board));
}

#[test]
fn test_default_piece_values() {
    assert_eq!(ChessPieces::default(), ChessPieces::Empty);
    assert_eq!(PieceColor::default(), PieceColor::NoColor);
    assert_eq!(MoveType::default(), MoveType::Normal);
    assert_eq!(
        BoardPiece::default(),
        piece(ChessPieces::Empty, PieceColor::NoColor)
    );
    let castle = chess_core::types::Castle::default();
    assert!(!castle.queenside && !castle.kingside);
}

#[test]
fn test_default_state_is_empty_board() {
    let state = ChessState::default();
    assert_eq!(state.board.len(), 64);
    for sq in 0..64 {
        assert_eq!(state.board[sq], piece(ChessPieces::Empty, PieceColor::NoColor));
    }
    assert_eq!(state.color_to_move, PieceColor::Black);
    assert!(!state.is_able_to_castle.queenside);
    assert!(!state.is_able_to_castle.kingside);
    assert_eq!(state.en_passant_target, None);
}
