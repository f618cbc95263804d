use chess_engine::board::Board;
use chess_engine::perft::move_generation_count;
use chess_engine::pieces::INITIAL_FEN;

#[test]
fn test_move_generation_count() {
    let mut board = Board::new();
    board.load_position(INITIAL_FEN);

    // Positions for initial FEN

    assert_eq!(move_generation_count(&mut board, 1), 20);
    assert_eq!(move_generation_count(&mut board, 2), 400);
    assert_eq!(move_generation_count(&mut board, 3), 8_902);
    assert_eq!(move_generation_count(&mut board, 4), 197_281);

    board.load_position("r3k2r/p1ppqpb1/bn2pnp1/3PN3/1p2P3/2N2Q1p/PPPBBPPP/R3K2R w KQkq -");

    assert_eq!(move_generation_count(&mut board, 1), 48);
    assert_eq!(move_generation_count(&mut board, 2), 2_039);
    assert_eq!(move_generation_count(&mut board, 3), 97_862);
    assert_eq!(move_generation_count(&mut board, 4), 4_085_603);
}
