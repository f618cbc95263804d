//! Perft: count the leaf positions reachable at a given depth, each
//! promotion counted once per choice of promotion piece.

use vstd::prelude::*;

use crate::board::Board;
use crate::board_piece::BoardPiece;
use crate::moves::PieceMove;
use crate::pieces::{get_promotion_options, is_white_piece, spec_is_white, EMPTY_PIECE};

verus! {

/// How a move list counts towards perft(1): four leaves for a
/// promotion, one for anything else.
pub open spec fn spec_expanded_moves(moves: Seq<PieceMove>, k: int) -> int
    decreases k,
{
    if k <= 0 {
        0
    } else {
        spec_expanded_moves(moves, k - 1) + (if moves[k - 1].is_promotion {
            4int
        } else {
            1int
        })
    }
}

/// The perft(1) count of a piece array: the expanded move counts of the
/// side to move's pieces.
pub open spec fn spec_expanded_count(pieces: Seq<BoardPiece>, white_move: bool, n: int) -> int
    decreases n,
{
    if n <= 0 {
        0
    } else {
        spec_expanded_count(pieces, white_move, n - 1) + (if pieces[n - 1].value != EMPTY_PIECE
            && pieces[n - 1].white == white_move {
            spec_expanded_moves(pieces[n - 1].moves@, pieces[n - 1].moves@.len() as int)
        } else {
            0
        })
    }
}

pub proof fn lemma_expanded_moves_bounded(moves: Seq<PieceMove>, k: int)
    requires
        0 <= k,
    ensures
        0 <= spec_expanded_moves(moves, k) <= 4 * k,
    decreases k,
{
    if k > 0 {
        lemma_expanded_moves_bounded(moves, k - 1);
    }
}

pub proof fn lemma_expanded_count_bounded(pieces: Seq<BoardPiece>, white_move: bool, n: int)
    requires
        0 <= n,
        forall|i: int| 0 <= i < n ==> (#[trigger] pieces[i]).moves@.len() <= 56,
    ensures
        0 <= spec_expanded_count(pieces, white_move, n) <= 224 * n,
    decreases n,
{
    if n > 0 {
        lemma_expanded_count_bounded(pieces, white_move, n - 1);
        lemma_expanded_moves_bounded(pieces[n - 1].moves@, pieces[n - 1].moves@.len() as int);
    }
}

/// A legal-move array of a position, as the generator reports it: one
/// entry per square carrying the piece standing there, with, for every
/// non-king piece of the side to move away from the cached king
/// squares, exactly the moves the legality filter keeps of its
/// generated candidates.
pub open spec fn spec_pieces_of(s: crate::board_state::BoardState, ps: Seq<BoardPiece>) -> bool {
    &&& ps.len() == 64
    &&& forall|i: int|
        0 <= i < 64 ==> (#[trigger] ps[i]).position == i && ps[i].value == s.squares@[i]
            && ps[i].white == spec_is_white(s.squares@[i])
    &&& forall|i: int|
        0 <= i < 64 && (#[trigger] ps[i]).value != EMPTY_PIECE && ps[i].white == s.white_move
            && crate::pieces::spec_piece_type(ps[i].value) != crate::pieces::PieceType::King && i
            != s.white_king_position as int && i != s.black_king_position as int ==> ps[i].moves@
            == crate::move_generator::spec_kept_moves(
            s,
            crate::move_generator::spec_piece_moves(
                s,
                crate::pieces::spec_piece_type(ps[i].value),
                i,
            ),
            crate::move_generator::spec_piece_moves(
                s,
                crate::pieces::spec_piece_type(ps[i].value),
                i,
            ).len() as int,
            ps[i].value,
            false,
            if s.white_move {
                s.white_king_position
            } else {
                s.black_king_position
            },
        )
}

/// Count the leaf positions `depth` half-moves ahead.  Depth zero (and
/// a finished game) counts one leaf; at depth one on a running game the
/// count is the expanded legal-move count of a legal-move array of the
/// entry position: each promotion counted once per choice of promotion
/// piece.
pub fn move_generation_count(board: &mut Board, depth: usize) -> (count: u64)
    requires
        old(board).inv(),
    ensures
        final(board).inv(),
        final(board).state.spec_eq_states_except_winner(old(board).state),
        final(board).state_history@ == old(board).state_history@,
        depth == 0 ==> count == 1,
        depth == 1 && crate::board::spec_winner_fen(old(board).state.winner) == '-'
            ==> exists|ps: Seq<BoardPiece>|
            #[trigger] spec_pieces_of(old(board).state, ps) && count == spec_expanded_count(
                ps,
                old(board).state.white_move,
                64,
            ),
    decreases depth, 1int,
{
    if depth == 0 || board.is_game_finished() {
        return 1;
    }
    let pieces = board.get_pieces();
    let count = perft_over(board, &pieces, depth);
    proof {
        if depth == 1 {
            assert(spec_pieces_of(old(board).state, pieces@));
        }
    }
    count
}

/// The recursion step of perft over an already generated piece array.
/// At depth one the result is exactly the expanded legal-move count of
/// the array.
pub fn perft_over(board: &mut Board, pieces: &Vec<BoardPiece>, depth: usize) -> (count: u64)
    requires
        old(board).inv(),
        depth >= 1,
        pieces@.len() == 64,
        forall|i: int| 0 <= i < 64 ==> (#[trigger] pieces@[i]).moves@.len() <= 56,
    ensures
        final(board).inv(),
        final(board).state.spec_eq_states_except_winner(old(board).state),
        final(board).state_history@ == old(board).state_history@,
        depth == 1 ==> count == spec_expanded_count(pieces@, old(board).state.white_move, 64),
    decreases depth, 0int,
{
    let white_move = board.is_white_move();
    let mut num_positions: u64 = 0;
    let mut i: usize = 0;
    while i < 64
        invariant
            i <= 64,
            board.inv(),
            board.state.spec_eq_states_except_winner(old(board).state),
            board.state_history@ == old(board).state_history@,
            white_move == old(board).state.white_move,
            pieces@.len() == 64,
            forall|k: int| 0 <= k < 64 ==> (#[trigger] pieces@[k]).moves@.len() <= 56,
            depth >= 1,
            depth == 1 ==> num_positions == spec_expanded_count(pieces@, white_move, i as int)
                && num_positions <= 224 * i,
        decreases 64 - i,
    {
        proof {
            lemma_expanded_count_bounded(pieces@, white_move, i as int);
        }
        let piece = &pieces[i];
        if piece.get_value() == EMPTY_PIECE || piece.is_white() != white_move {
            i = i + 1;
            continue ;
        }
        let ghost pre_piece = num_positions;
        let mut j: usize = 0;
        while j < piece.moves.len()
            invariant
                j <= piece.moves@.len(),
                0 <= i < 64,
                pieces@.len() == 64,
                piece == &pieces@[i as int],
                piece.moves@.len() <= 56,
                board.inv(),
                board.state.spec_eq_states_except_winner(old(board).state),
                board.state_history@ == old(board).state_history@,
                depth >= 1,
                depth == 1 ==> num_positions == pre_piece + spec_expanded_moves(
                    piece.moves@,
                    j as int,
                ) && num_positions <= pre_piece + 4 * j && pre_piece <= 14336,
            decreases piece.moves@.len() - j,
        {
            proof {
                lemma_expanded_moves_bounded(piece.moves@, j as int);
            }
            let piece_move = piece.moves[j];
            if piece_move.is_promotion() {
                let options = get_promotion_options(is_white_piece(piece_move.get_piece_value()));
                let mut o: usize = 0;
                while o < options.len()
                    invariant
                        o <= options@.len(),
                        options@.len() == 4,
                        board.inv(),
                        board.state.spec_eq_states_except_winner(old(board).state),
                        board.state_history@ == old(board).state_history@,
                        depth >= 1,
                        0 <= i < 64,
                        pieces@.len() == 64,
                        piece == &pieces@[i as int],
                        piece.moves@.len() <= 56,
                        0 <= j < piece.moves@.len(),
                        piece_move == piece.moves@[j as int],
                        depth == 1 ==> num_positions == pre_piece + spec_expanded_moves(
                            piece.moves@,
                            j as int,
                        ) + o && num_positions <= pre_piece + 4 * j + o && pre_piece <= 14336,
                    decreases options@.len() - o,
                {
                    let mut chosen = piece_move;
                    chosen.set_promotion_value(options[o]);
                    let child = perft_child(board, &chosen, depth);
                    num_positions = saturating_add(num_positions, child);
                    proof {
                        if depth == 1 {
                            lemma_expanded_moves_bounded(piece.moves@, j as int);
                        }
                    }
                    o = o + 1;
                }
            } else {
                let child = perft_child(board, &piece_move, depth);
                num_positions = saturating_add(num_positions, child);
            }
            j = j + 1;
        }
        i = i + 1;
    }
    num_positions
}

/// Make one candidate move, count the positions below it, and take it
/// back; a rejected move counts a single leaf.
fn perft_child(board: &mut Board, piece_move: &PieceMove, depth: usize) -> (count: u64)
    requires
        old(board).inv(),
        depth >= 1,
    ensures
        final(board).inv(),
        final(board).state.spec_eq_states(old(board).state),
        final(board).state_history@ == old(board).state_history@,
        depth == 1 ==> count == 1,
    decreases depth - 1, 2int,
{
    let ghost history_before = board.state_history@;
    match board.make_move(piece_move) {
        Ok(_) => {
            let child = move_generation_count(board, depth - 1);
            board.undo_last_move();
            proof {
                assert(final(board).state_history@ =~= history_before);
            }
            child
        },
        Err(_) => 1,
    }
}

/// Add without wrapping, holding at the maximum.
fn saturating_add(a: u64, b: u64) -> (r: u64)
    ensures
        r == (if a + b <= u64::MAX {
            a + b
        } else {
            u64::MAX as int
        }),
{
    if a <= u64::MAX - b {
        a + b
    } else {
        u64::MAX
    }
}

} // verus!
