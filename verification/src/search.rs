//! The search: negamax with alpha-beta pruning over a board mutated in
//! place by make/unmake, a quiescence extension over captures at the
//! leaves, and the root layer that scores each first-ply move and keeps
//! the best.

use vstd::prelude::*;

use crate::ai_utils::{get_board_value, get_sorted_moves};
use crate::board::Board;
use crate::moves::PieceMove;

verus! {

/// How many extra plies of captures the quiescence search may explore:
/// the capture extension is cut off at this fixed depth, and a longer
/// capture chain ends at the stand-pat score of the frontier position.
pub const QUIESCENCE_FUEL: u8 = 16;

/// Add without wrapping, holding at the maximum.
fn saturating_add_u64(a: u64, b: u64) -> (r: u64)
    ensures
        r == (if a + b <= u64::MAX {
            a + b
        } else {
            u64::MAX as int
        }),
{
    if a <= u64::MAX - b {
        a + b
    } else {
        u64::MAX
    }
}

/// The quiescence search: stand pat, cut on beta, then explore captures
/// only, at most `fuel` plies deep.  The board comes back as it went in;
/// the returned score always exceeds `i32::MIN` and the node count is
/// at least one.
pub fn quiescence(board: &mut Board, alpha: i32, beta: i32, max: bool, fuel: u8) -> (r: (
    i32,
    u64,
))
    requires
        old(board).inv(),
        i32::MIN < alpha <= beta,
    ensures
        final(board).inv(),
        final(board).state.spec_eq_states_except_winner(old(board).state),
        final(board).state_history@ == old(board).state_history@,
        i32::MIN < r.0,
        r.1 >= 1,
        fuel == 0 ==> r.1 == 1,
        fuel >= 1 ==> alpha <= r.0 <= beta,
    decreases fuel,
{
    let pieces = board.get_pieces();
    // the score stays in the side to move's frame: the negation at each
    // ply re-frames it for the parent
    let stand_pat = get_board_value(board, true, &pieces);
    if fuel == 0 {
        return (stand_pat, 1);
    }
    if stand_pat >= beta {
        return (beta, 1);
    }
    let mut cur_alpha = alpha;
    if stand_pat > cur_alpha {
        cur_alpha = stand_pat;
    }
    let moves = get_sorted_moves(board, max, &pieces);
    let mut count: u64 = 1;
    let mut i: usize = 0;
    while i < moves.len()
        invariant
            i <= moves@.len(),
            board.inv(),
            board.state.spec_eq_states_except_winner(old(board).state),
            board.state_history@ == old(board).state_history@,
            i32::MIN < alpha <= cur_alpha <= beta,
            count >= 1,
            fuel >= 1,
        decreases moves@.len() - i,
    {
        let m = moves[i];
        if m.is_capture() {
            let ghost pre = board.state;
            match board.make_move(&m) {
                Ok(_) => {
                    let child = quiescence(board, -beta, -cur_alpha, !max, fuel - 1);
                    board.undo_last_move();
                    count = saturating_add_u64(count, child.1);
                    let score = -child.0;
                    if score >= beta {
                        return (beta, count);
                    }
                    if score > cur_alpha {
                        cur_alpha = score;
                    }
                },
                Err(_) => {},
            }
        }
        i = i + 1;
    }
    (cur_alpha, count)
}

/// Negamax with alpha-beta pruning: at depth zero or on a finished game
/// it drops into the quiescence search; otherwise it tries the ordered
/// legal moves, recursing with the window negated and flipped.  The
/// board comes back as it went in, up to the winner bookkeeping of
/// positions found to be over.
pub fn negamax(board: &mut Board, alpha: i32, beta: i32, max: bool, depth: u8) -> (r: (i32, u64))
    requires
        old(board).inv(),
        i32::MIN < alpha <= beta,
    ensures
        final(board).inv(),
        final(board).state.spec_eq_states_except_winner(old(board).state),
        final(board).state_history@ == old(board).state_history@,
        i32::MIN < r.0,
        r.1 >= 1,
    decreases depth,
{
    let pieces = board.get_pieces();
    if depth == 0 || board.is_game_finished() {
        return quiescence(board, alpha, beta, max, QUIESCENCE_FUEL);
    }
    let moves = get_sorted_moves(board, max, &pieces);
    let mut value: i32 = i32::MIN + 1;
    let mut alpha = alpha;
    let mut count: u64 = 0;
    let mut i: usize = 0;
    while i < moves.len()
        invariant
            i <= moves@.len(),
            board.inv(),
            board.state.spec_eq_states_except_winner(old(board).state),
            board.state_history@ == old(board).state_history@,
            i32::MIN < alpha <= beta,
            i32::MIN < value,
            depth >= 1,
        decreases moves@.len() - i,
    {
        let m = moves[i];
        match board.make_move(&m) {
            Ok(_) => {
                let child = negamax(board, -beta, -alpha, !max, depth - 1);
                board.undo_last_move();
                count = saturating_add_u64(count, child.1);
                let score = -child.0;
                if score > value {
                    value = score;
                }
                if value > alpha {
                    alpha = value;
                }
                if alpha >= beta {
                    if count == 0 {
                        count = 1;
                    }
                    return (value, count);
                }
                proof {
                    assert(alpha <= beta);
                }
            },
            Err(_) => {},
        }
        i = i + 1;
    }
    if count == 0 {
        count = 1;
    }
    (value, count)
}

/// Score one first-ply move: make it, run negamax for the remaining
/// depth from the opponent's side, take it back, and return the score
/// from the mover's point of view with the count of evaluated nodes.
/// The board comes back exactly as it went in.
pub fn root_move_score(board: &mut Board, piece_move: &PieceMove, depth: u8) -> (r: (i32, u64))
    requires
        old(board).inv(),
        depth >= 1,
    ensures
        final(board).inv(),
        final(board).state.spec_eq_states(old(board).state),
        final(board).state_history@ == old(board).state_history@,
        i32::MIN < r.0,
        crate::board::spec_make_error(old(board).state, *piece_move) is Some <==> (r.0
            == i32::MIN + 1 && r.1 == 0),
        crate::board::spec_make_error(old(board).state, *piece_move) is None ==> r.1 >= 1,
{
    let ghost history_before = board.state_history@;
    match board.make_move(piece_move) {
        Ok(_) => {
            let child = negamax(board, i32::MIN + 1, i32::MAX, false, depth - 1);
            board.undo_last_move();
            proof {
                assert(final(board).state_history@ =~= history_before);
            }
            (-child.0, child.1)
        },
        Err(_) => (i32::MIN + 1, 0),
    }
}

/// The best score and first-ply move of a finished score list: some
/// entry achieves the returned score and no entry beats it.
pub fn reduce_root_results(moves: &Vec<PieceMove>, scores: &Vec<i32>) -> (best: (i32, PieceMove))
    requires
        moves@.len() == scores@.len(),
        moves@.len() > 0,
    ensures
        exists|i: int|
            0 <= i < moves@.len() && #[trigger] moves@[i] == best.1 && scores@[i] == best.0,
        forall|j: int| 0 <= j < scores@.len() ==> #[trigger] scores@[j] <= best.0,
{
    let mut best_score = scores[0];
    let mut best_move = moves[0];
    let mut i: usize = 1;
    while i < moves.len()
        invariant
            1 <= i <= moves@.len(),
            moves@.len() == scores@.len(),
            exists|k: int|
                0 <= k < moves@.len() && #[trigger] moves@[k] == best_move && scores@[k]
                    == best_score,
            forall|j: int| 0 <= j < i ==> #[trigger] scores@[j] <= best_score,
        decreases moves@.len() - i,
    {
        if scores[i] > best_score {
            best_score = scores[i];
            best_move = moves[i];
        }
        i = i + 1;
    }
    (best_score, best_move)
}


/// The move is, up to its transient worth and the chosen promotion
/// piece, a generated move of a piece of the side to move on this very
/// position.
pub open spec fn spec_root_move_of(s: crate::board_state::BoardState, m: PieceMove) -> bool {
    &&& (m.is_promotion ==> crate::pieces::spec_promotion_options(
        crate::pieces::spec_is_white(m.piece_value),
    ).contains(m.promotion_type))
    &&& exists|ps: Seq<crate::board_piece::BoardPiece>|
        (#[trigger] crate::ai_utils::spec_from_piece_moves(ps, m, s.white_move)) && ps.len() == 64
            && (forall|i: int|
            0 <= i < 64 ==> (#[trigger] ps[i]).value == s.squares@[i] && ps[i].white
                == crate::pieces::spec_is_white(s.squares@[i]))
}


/// No non-king piece of the side to move, away from the cached king
/// squares, has any move the legality filter would keep: the position
/// offers the side to move no piece move at all.
pub open spec fn spec_no_piece_legal_moves(s: crate::board_state::BoardState) -> bool {
    forall|i: int|
        0 <= i < 64 && #[trigger] s.squares@[i] != crate::pieces::EMPTY_PIECE
            && crate::pieces::spec_is_white(s.squares@[i]) == s.white_move
            && crate::pieces::spec_piece_type(s.squares@[i]) != crate::pieces::PieceType::King && i
            != s.white_king_position as int && i != s.black_king_position as int
            ==> crate::move_generator::spec_kept_moves(
            s,
            crate::move_generator::spec_piece_moves(
                s,
                crate::pieces::spec_piece_type(s.squares@[i]),
                i,
            ),
            crate::move_generator::spec_piece_moves(
                s,
                crate::pieces::spec_piece_type(s.squares@[i]),
                i,
            ).len() as int,
            s.squares@[i],
            false,
            if s.white_move {
                s.white_king_position
            } else {
                s.black_king_position
            },
        ).len() == 0
}

/// The fixed-depth engine around the search.
pub struct AI {}

impl AI {
    pub fn new() -> (ai: AI) {
        AI {  }
    }

    /// Pick a move for the side to move: order the legal first-ply
    /// moves, score each by negamax at the remaining depth, and return
    /// the best score with its move.  Without a legal move the sentinel
    /// move from -1 to -1 comes back.  The board itself is unchanged but
    /// for the winner bookkeeping of a finished position.
    pub fn make_move(&mut self, board: &mut Board, depth: u8) -> (r: (i32, PieceMove))
        requires
            old(board).inv(),
            depth >= 1,
        ensures
            final(board).inv(),
            final(board).state.spec_eq_states_except_winner(old(board).state),
            final(board).state_history@ == old(board).state_history@,
            i32::MIN < r.0,
            spec_root_move_of(old(board).state, r.1) || (r.1 == (PieceMove {
                from_position: -1i8,
                is_capture: false,
                is_en_passant: false,
                is_promotion: false,
                move_worth: 0i32,
                piece_value: 0i8,
                promotion_type: 0i8,
                to_position: -1i8,
            }) && (final(board).state.winner == 8 || final(board).state.winner == 16 || final(board).state.winner == 24)
                && spec_no_piece_legal_moves(old(board).state)),
    {
        let pieces = board.get_pieces();
        let moves = get_sorted_moves(board, true, &pieces);
        let ghost winner_after_generation = board.state.winner;
        let mut scores: Vec<i32> = Vec::new();
        let mut i: usize = 0;
        while i < moves.len()
            invariant
                i <= moves@.len(),
                scores@.len() == i,
                forall|j: int| 0 <= j < i ==> #[trigger] scores@[j] > i32::MIN,
                board.inv(),
                board.state.spec_eq_states_except_winner(old(board).state),
                board.state.winner == winner_after_generation,
                board.state_history@ == old(board).state_history@,
                depth >= 1,
            decreases moves@.len() - i,
        {
            let r = root_move_score(board, &moves[i], depth);
            scores.push(r.0);
            i = i + 1;
        }
        if moves.len() == 0 {
            proof {
                assert(forall|i: int|
                    0 <= i < 64 && (#[trigger] pieces@[i]).white == old(board).state.white_move
                        ==> pieces@[i].moves@.len() == 0);
                assert(!(exists|i: int|
                    0 <= i < 64 && (#[trigger] pieces@[i]).value != crate::pieces::EMPTY_PIECE
                        && pieces@[i].white == old(board).state.white_move && pieces@[
                        i
                    ].moves@.len() > 0));
                assert(board.state.winner == crate::board::spec_winner_code(
                    false,
                    old(board).state.white_move,
                ) || board.state.winner == crate::board::spec_winner_code(
                    true,
                    old(board).state.white_move,
                ));
                assert(board.state.winner == 8 || board.state.winner == 16 || board.state.winner
                    == 24);
                assert forall|i: int|
                    0 <= i < 64 && #[trigger] old(board).state.squares@[i]
                        != crate::pieces::EMPTY_PIECE && crate::pieces::spec_is_white(
                        old(board).state.squares@[i],
                    ) == old(board).state.white_move && crate::pieces::spec_piece_type(
                        old(board).state.squares@[i],
                    ) != crate::pieces::PieceType::King && i != old(board).state.white_king_position as int
                        && i != old(board).state.black_king_position as int implies crate::move_generator::spec_kept_moves(
                    old(board).state,
                    crate::move_generator::spec_piece_moves(
                        old(board).state,
                        crate::pieces::spec_piece_type(old(board).state.squares@[i]),
                        i,
                    ),
                    crate::move_generator::spec_piece_moves(
                        old(board).state,
                        crate::pieces::spec_piece_type(old(board).state.squares@[i]),
                        i,
                    ).len() as int,
                    old(board).state.squares@[i],
                    false,
                    if old(board).state.white_move {
                        old(board).state.white_king_position
                    } else {
                        old(board).state.black_king_position
                    },
                ).len() == 0 by {
                    assert(pieces@[i].value == old(board).state.squares@[i]);
                    assert(pieces@[i].white == old(board).state.white_move);
                    assert(pieces@[i].moves@.len() == 0);
                }
            }
            return (i32::MIN + 1, PieceMove::new(-1, 0, -1));
        }
        let best = reduce_root_results(&moves, &scores);
        proof {
            let k = choose|k: int|
                0 <= k < moves@.len() && #[trigger] moves@[k] == best.1 && scores@[k] == best.0;
            assert(crate::ai_utils::spec_from_piece_moves(
                pieces@,
                best.1,
                old(board).state.white_move,
            ));
        }
        best
    }
}

} // verus!
