use chess_engine::board::Board;
use chess_engine::board_state::BoardState;
use chess_engine::moves::PieceMove;
use chess_engine::pieces::INITIAL_FEN;
use chess_engine::zobrist::compute_hash_parts;

fn new_game() -> Board {
    let mut board = Board::new();
    board.load_position(INITIAL_FEN);
    board
}

fn recomputed_hash(state: &BoardState) -> u64 {
    compute_hash_parts(
        &state.zobrist.keys,
        &state.squares,
        state.white_move,
        state.white_able_to_king_side_castle,
        state.white_able_to_queen_side_castle,
        state.black_able_to_king_side_castle,
        state.black_able_to_queen_side_castle,
        state.white_en_passant != -1,
        state.black_en_passant != -1,
    )
}

fn make(board: &mut Board, from: i8, to: i8) {
    let piece = board.get_state_reference().get_piece(from);
    assert!(piece != 0, "no piece on square {}", from);
    let mv = PieceMove::new(from, piece, to);
    board.make_move(&mv).expect("move rejected");
}

#[test]
fn test_initial_position_loads() {
    let board = new_game();
    let state = board.get_state_reference();
    assert_eq!(state.get_piece(0), 14); // black rook a8
    assert_eq!(state.get_piece(4), 10); // black king e8
    assert_eq!(state.get_piece(60), 18); // white king e1
    assert_eq!(state.get_piece(63), 22); // white rook h1
    assert_eq!(state.get_piece(52), 20); // white pawn e2
    assert!(state.is_white_move());
    assert!(state.is_white_able_to_king_side_castle());
    assert!(state.is_black_able_to_queen_side_castle());
    assert_eq!(state.get_white_en_passant(), -1);
    assert_eq!(state.get_black_en_passant(), -1);
}

#[test]
fn test_fools_mate_detection() {
    let mut board = new_game();
    make(&mut board, 53, 45); // f2-f3
    make(&mut board, 12, 28); // e7-e5
    make(&mut board, 54, 38); // g2-g4
    make(&mut board, 3, 39); // d8-h4
    board.get_pieces();
    assert!(board.is_game_finished());
    assert_eq!(board.get_winner_fen(), 'b');
}

#[test]
fn test_stalemate_detection() {
    let mut board = Board::new();
    board.load_position("k7/8/1Q6/8/8/8/8/7K b - - 0 1");
    let pieces = board.get_pieces();
    let moves: usize = pieces
        .iter()
        .filter(|p| !p.is_white() && p.get_value() != 0)
        .map(|p| p.get_moves_reference().len())
        .sum();
    assert_eq!(moves, 0);
    assert_eq!(board.get_winner_fen(), 'd');
}

#[test]
fn test_en_passant_capture() {
    let mut board = Board::new();
    board.load_position("rnbqkbnr/ppp1pppp/8/3pP3/8/8/PPPP1PPP/RNBQKBNR w KQkq d6 0 3");
    assert_eq!(board.get_state_reference().get_black_en_passant(), 19); // d6
    let mut mv = PieceMove::new(28, 20, 19); // e5 pawn captures d6 en passant
    mv.set_is_capture(true);
    mv.set_is_en_passant(true);
    board.make_move(&mv).expect("en passant rejected");
    let state = board.get_state_reference();
    assert_eq!(state.get_piece(19), 20); // white pawn on d6
    assert_eq!(state.get_piece(27), 0); // d5 now empty
    assert_eq!(state.black_captures.len(), 0);
    assert_eq!(state.white_captures, vec![12]); // one black pawn taken
}

#[test]
fn test_kingside_castling() {
    let mut board = Board::new();
    board.load_position("r3k2r/8/8/8/8/8/8/R3K2R w KQkq - 0 1");
    let pieces = board.get_pieces();
    let king_moves = pieces[60].get_moves_reference();
    assert!(king_moves.iter().any(|m| m.get_to_position() == 62));
    make(&mut board, 60, 62);
    let state = board.get_state_reference();
    assert_eq!(state.get_piece(62), 18); // king on g1
    assert_eq!(state.get_piece(61), 22); // rook on f1
    assert_eq!(state.get_piece(60), 0);
    assert_eq!(state.get_piece(63), 0);
    assert!(!state.is_white_able_to_king_side_castle());
    assert!(!state.is_white_able_to_queen_side_castle());
}

#[test]
fn test_promotion_expands_to_four_moves() {
    let mut board = Board::new();
    board.load_position("8/P6k/8/8/8/8/8/K7 w - - 0 1");
    let pieces = board.get_pieces();
    let pawn_moves = pieces[8].get_moves_reference();
    assert!(pawn_moves.iter().any(|m| m.get_to_position() == 0 && m.is_promotion()));
    let sorted = chess_engine::ai_utils::get_sorted_moves(&board, true, &pieces);
    let mut promo_types: Vec<i8> = sorted
        .iter()
        .filter(|m| m.get_from_position() == 8 && m.get_to_position() == 0)
        .map(|m| m.get_promotion_value())
        .collect();
    promo_types.sort();
    assert_eq!(promo_types, vec![17, 19, 21, 22]);
}

#[test]
fn test_make_unmake_restores_position() {
    let mut board = Board::new();
    board.load_position("r3k2r/p1ppqpb1/bn2pnp1/3PN3/1p2P3/2N2Q1p/PPPBBPPP/R3K2R w KQkq - 0 1");
    let squares_before = board.get_state_reference().squares.clone();
    let hash_before = board.get_zobrist_hash();
    let pieces = board.get_pieces();
    for piece in pieces.iter() {
        for mv in piece.get_moves_reference().iter() {
            let mut chosen = *mv;
            if chosen.is_promotion() && chosen.get_promotion_value() == 0 {
                chosen.set_promotion_value(if piece.is_white() { 21 } else { 13 });
            }
            board.make_move(&chosen).expect("legal move rejected");
            board.undo_last_move();
            let state = board.get_state_reference();
            assert_eq!(state.squares, squares_before);
            assert_eq!(board.get_zobrist_hash(), hash_before);
            assert!(state.is_white_move());
        }
    }
}

#[test]
fn test_zobrist_incremental_matches_recomputation() {
    let mut board = new_game();
    assert_eq!(board.get_zobrist_hash(), recomputed_hash(board.get_state_reference()));
    make(&mut board, 52, 36); // e2-e4
    assert_eq!(board.get_zobrist_hash(), recomputed_hash(board.get_state_reference()));
    make(&mut board, 11, 27); // d7-d5
    assert_eq!(board.get_zobrist_hash(), recomputed_hash(board.get_state_reference()));
    make(&mut board, 36, 27); // e4xd5
    assert_eq!(board.get_zobrist_hash(), recomputed_hash(board.get_state_reference()));
    make(&mut board, 3, 27); // Qd8xd5
    assert_eq!(board.get_zobrist_hash(), recomputed_hash(board.get_state_reference()));
    // castling rights fall once the rooks and kings move
    let mut castle_board = Board::new();
    castle_board.load_position("r3k2r/8/8/8/8/8/8/R3K2R w KQkq - 0 1");
    make(&mut castle_board, 60, 62);
    assert_eq!(
        castle_board.get_zobrist_hash(),
        recomputed_hash(castle_board.get_state_reference())
    );
    make(&mut castle_board, 4, 2);
    assert_eq!(
        castle_board.get_zobrist_hash(),
        recomputed_hash(castle_board.get_state_reference())
    );
}

#[test]
fn test_make_move_rejections() {
    let mut board = new_game();
    assert!(board.make_move(&PieceMove::new(-1, 0, 10)).is_err());
    assert!(board.make_move(&PieceMove::new(10, 0, 64)).is_err());
    assert!(board.make_move(&PieceMove::new(28, 0, 29)).is_err()); // empty origin
    // capturing a king is refused
    assert!(board.make_move(&PieceMove::new(52, 20, 4)).is_err());
    // a promotion without a chosen piece is refused
    let mut promo = PieceMove::new(52, 20, 44);
    promo.set_is_promotion(true);
    assert!(board.make_move(&promo).is_err());
    // the board is untouched after a rejection
    assert_eq!(board.get_state_reference().get_piece(52), 20);
    assert!(board.is_white_move());
}

#[test]
fn test_evaluator_flips_with_side_to_move() {
    let mut board = Board::new();
    board.load_position("rnbqkbnr/ppp1pppp/8/3p4/4P3/8/PPPP1PPP/RNBQKBNR w KQkq - 0 2");
    let pieces = board.get_pieces();
    let value_white = chess_engine::ai_utils::get_board_value(&board, true, &pieces);
    let mut flipped = Board::new();
    flipped.load_position("rnbqkbnr/ppp1pppp/8/3p4/4P3/8/PPPP1PPP/RNBQKBNR b KQkq - 0 2");
    let value_black = chess_engine::ai_utils::get_board_value(&flipped, true, &pieces);
    assert_eq!(value_white, -value_black);
}

#[test]
fn test_captures_to_fen() {
    let mut board = new_game();
    make(&mut board, 52, 36); // e2-e4
    make(&mut board, 11, 27); // d7-d5
    make(&mut board, 36, 27); // e4xd5
    assert_eq!(board.white_captures_to_fen(), vec!["p"]);
    assert!(board.black_captures_to_fen().is_empty());
}

#[test]
fn test_search_finds_mate_in_one() {
    let mut board = new_game();
    make(&mut board, 53, 45); // f2-f3
    make(&mut board, 12, 28); // e7-e5
    make(&mut board, 54, 38); // g2-g4
    let mut ai = chess_engine::search::AI::new();
    let (score, best) = ai.make_move(&mut board, 2);
    assert_eq!(best.get_from_position(), 3);
    assert_eq!(best.get_to_position(), 39);
    assert!(score > 10000);
}

#[test]
fn test_legal_move_count_matches_perft_one() {
    let mut board = Board::new();
    board.load_position("r3k2r/p1ppqpb1/bn2pnp1/3PN3/1p2P3/2N2Q1p/PPPBBPPP/R3K2R w KQkq - 0 1");
    let pieces = board.get_pieces();
    let expanded: u64 = pieces
        .iter()
        .filter(|p| p.get_value() != 0 && p.is_white())
        .flat_map(|p| p.get_moves_reference().iter())
        .map(|m| if m.is_promotion() { 4u64 } else { 1u64 })
        .sum();
    let perft1 = chess_engine::perft::move_generation_count(&mut board, 1);
    assert_eq!(perft1, expanded);
    assert_eq!(perft1, 48);
}

#[test]
fn test_two_makes_two_unmakes_are_identity() {
    let mut board = new_game();
    let squares_before = board.get_state_reference().squares.clone();
    let hash_before = board.get_zobrist_hash();
    make(&mut board, 52, 36); // e2-e4
    make(&mut board, 11, 27); // d7-d5
    board.undo_last_move();
    board.undo_last_move();
    let state = board.get_state_reference();
    assert_eq!(state.squares, squares_before);
    assert_eq!(board.get_zobrist_hash(), hash_before);
    assert!(state.is_white_move());
    assert_eq!(state.get_white_en_passant(), -1);
    assert_eq!(state.get_black_en_passant(), -1);
    assert_eq!(state.full_moves, 1);
}

#[test]
fn test_fen_defaults_for_missing_fields() {
    let mut board = Board::new();
    board.load_position("8/8/8/8/8/8/8/K6k w");
    let state = board.get_state_reference();
    assert!(!state.is_white_able_to_king_side_castle());
    assert!(!state.is_black_able_to_queen_side_castle());
    assert_eq!(state.get_white_en_passant(), -1);
    assert_eq!(state.half_moves, 0);
    assert_eq!(state.full_moves, 0);
    assert_eq!(state.get_white_king_position(), 56);
    assert_eq!(state.get_black_king_position(), 63);
}

#[test]
fn test_doubled_pawn_seen_through_blockers() {
    let mut board = Board::new();
    // white pawns on a4 and a2 with a white rook between them on a3
    board.load_position("8/8/8/8/P7/R7/P6k/K7 w - - 0 1");
    let state = board.get_state_reference();
    assert!(chess_engine::ai_utils::is_doubled_pawn(state, 48, true)); // a2: a4 ahead
    assert!(!chess_engine::ai_utils::is_doubled_pawn(state, 32, true)); // a4: nothing ahead
}

#[test]
fn test_locked_pawns_are_not_an_immediate_draw() {
    let mut board = Board::new();
    // both pawns are blocked, but both kings can still move
    board.load_position("k7/8/8/p7/P7/8/8/K7 w - - 0 1");
    let pieces = board.get_pieces();
    assert!(!board.is_game_finished());
    assert_eq!(board.get_winner_fen(), '-');
    assert!(pieces[56].get_moves_reference().len() > 0); // the white king moves
}

#[test]
fn test_two_kings_only_is_a_draw() {
    let mut board = Board::new();
    board.load_position("k7/8/8/8/8/8/8/7K w - - 0 1");
    board.get_pieces();
    assert!(board.is_game_finished());
    assert_eq!(board.get_winner_fen(), 'd');
}
