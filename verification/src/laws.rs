//! The engine's global laws, stated over the contracts of `make_move`,
//! `undo_last_move` and the position invariant.

use vstd::prelude::*;

use crate::board::Board;
use crate::board_state::BoardState;

verus! {

/// Law: make then unmake is the identity on the position.
///
/// `b1` stands for the board after any successful `make_move` on `b0`
/// (the premises are that call's postconditions: the previous position
/// was pushed onto the history), and `b2` for the board after the
/// matching `undo_last_move` (its postconditions: the top of the
/// history restored verbatim).  Then `b2` agrees with `b0` on the whole
/// observable position - squares, rights, targets, caches, counters,
/// capture lists, winner and Zobrist hash - and on the history.
pub proof fn lemma_make_unmake_identity(b0: Board, b1: Board, b2: Board)
    requires
        b1.state_history@.len() == b0.state_history@.len() + 1,
        b1.state_history@.subrange(0, b0.state_history@.len() as int) == b0.state_history@,
        b1.state_history@.last().spec_eq_states(b0.state),
        b2.state == b1.state_history@.last(),
        b2.state_history@ == b1.state_history@.drop_last(),
    ensures
        b2.state.spec_eq_states(b0.state),
        b2.state_history@ == b0.state_history@,
{
    assert(b2.state_history@ =~= b0.state_history@);
}

/// Law: two makes followed by two unmakes are the identity, for any two
/// successive successful moves.  The premises chain the postconditions
/// of `make_move` (for `b0` to `b1` and `b1` to `b2`) and of
/// `undo_last_move` (for `b2` to `b3` and `b3` to `b4`).
pub proof fn lemma_make_make_unmake_unmake_identity(
    b0: Board,
    b1: Board,
    b2: Board,
    b3: Board,
    b4: Board,
)
    requires
        b1.state_history@.len() == b0.state_history@.len() + 1,
        b1.state_history@.subrange(0, b0.state_history@.len() as int) == b0.state_history@,
        b1.state_history@.last().spec_eq_states(b0.state),
        b2.state_history@.len() == b1.state_history@.len() + 1,
        b2.state_history@.subrange(0, b1.state_history@.len() as int) == b1.state_history@,
        b2.state_history@.last().spec_eq_states(b1.state),
        b3.state == b2.state_history@.last(),
        b3.state_history@ == b2.state_history@.drop_last(),
        b4.state == b3.state_history@.last(),
        b4.state_history@ == b3.state_history@.drop_last(),
    ensures
        b3.state.spec_eq_states(b1.state),
        b4.state.spec_eq_states(b0.state),
        b4.state_history@ == b0.state_history@,
{
    lemma_make_unmake_identity(b1, b2, b3);
    lemma_make_unmake_identity(b0, b1, b4);
}

/// How many squares of the first `n` hold the given piece value.
pub open spec fn spec_count_piece(squares: Seq<i8>, piece_value: i8, n: int) -> int
    decreases n,
{
    if n <= 0 {
        0
    } else {
        spec_count_piece(squares, piece_value, n - 1) + (if squares[n - 1] == piece_value {
            1int
        } else {
            0int
        })
    }
}

/// Law: across every make/unmake pair, the count of every piece value
/// on the board and the lengths of both capture lists are conserved.
/// `restored` stands for the position after the pair, which by
/// `lemma_make_unmake_identity` agrees with the original.
pub proof fn lemma_make_unmake_conserves_material(
    original: BoardState,
    restored: BoardState,
    piece_value: i8,
)
    requires
        restored.spec_eq_states(original),
    ensures
        spec_count_piece(restored.squares@, piece_value, 64) == spec_count_piece(
            original.squares@,
            piece_value,
            64,
        ),
        restored.white_captures@.len() == original.white_captures@.len(),
        restored.black_captures@.len() == original.black_captures@.len(),
{
}

/// Law: on every board the engine maintains, the stored Zobrist hash
/// equals the full XOR recomputation over the position: every key of a
/// piece standing on its square, the side to move, each castling right
/// still held and each en-passant marker set.  The board operations
/// keep this incrementally; `compute_hash_parts` rebuilds it from
/// scratch and lands on the same value.
pub proof fn lemma_zobrist_hash_matches_recomputation(board: Board)
    requires
        board.inv(),
    ensures
        board.state.zobrist.hash == board.state.spec_hash(),
{
}

} // verus!
