//! Small geometric helpers for the move generator: rank arithmetic,
//! adjacency with board-edge filters, path emptiness, and lookups over
//! generated move lists.

use vstd::prelude::*;

use crate::board_piece::BoardPiece;
use crate::board_state::BoardState;
use crate::moves::PieceMove;
use crate::pieces::EMPTY_PIECE;

verus! {

/// The first square of the rank a square index lies on, following
/// truncating remainder for indexes below the board.
pub open spec fn spec_row_start(p: int) -> int {
    if p >= 0 {
        p - (p % 8)
    } else {
        p + ((-p) % 8)
    }
}

/// How many ranks apart two square indexes lie.
pub open spec fn spec_line_distance(p1: int, p2: int) -> int {
    if spec_row_start(p1) >= spec_row_start(p2) {
        (spec_row_start(p1) - spec_row_start(p2)) / 8
    } else {
        (spec_row_start(p2) - spec_row_start(p1)) / 8
    }
}

/// A pawn still stands on its home rank: 48..=55 for white, 8..=15 for
/// black.
pub open spec fn spec_is_pawn_first_move(white_piece: bool, piece_position: i8) -> bool {
    if white_piece {
        48 <= piece_position <= 55
    } else {
        8 <= piece_position <= 15
    }
}

pub fn is_pawn_first_move(white_piece: bool, piece_position: i8) -> (r: bool)
    ensures
        r == spec_is_pawn_first_move(white_piece, piece_position),
{
    if white_piece && 48 <= piece_position && piece_position <= 55 {
        return true;
    }
    if !white_piece && 8 <= piece_position && piece_position <= 15 {
        return true;
    }
    false
}

/// Some move of the list ends on the given square.
pub open spec fn spec_attacks_to(moves: Seq<PieceMove>, n: i8) -> bool {
    exists|i: int| 0 <= i < moves.len() && #[trigger] moves[i].to_position == n
}

pub fn position_is_not_attacked(n: i8, opponent_moves: &Vec<PieceMove>) -> (r: bool)
    ensures
        r == !spec_attacks_to(opponent_moves@, n),
{
    let mut i: usize = 0;
    while i < opponent_moves.len()
        invariant
            i <= opponent_moves@.len(),
            forall|j: int| 0 <= j < i ==> #[trigger] opponent_moves@[j].to_position != n,
        decreases opponent_moves@.len() - i,
    {
        if opponent_moves[i].get_to_position() == n {
            return false;
        }
        i = i + 1;
    }
    true
}

/// Some enemy piece of the array has a move onto the king's square.
pub open spec fn spec_is_king_in_check(
    pieces: Seq<BoardPiece>,
    king_position: i8,
    is_white_move: bool,
) -> bool {
    exists|i: int|
        0 <= i < pieces.len() && #[trigger] pieces[i].value != EMPTY_PIECE && pieces[i].white
            != is_white_move && spec_attacks_to(pieces[i].moves@, king_position)
}

pub fn is_king_in_check(pieces: &Vec<BoardPiece>, king_position: i8, is_white_move: bool) -> (r:
    bool)
    ensures
        r == spec_is_king_in_check(pieces@, king_position, is_white_move),
{
    let mut i: usize = 0;
    while i < pieces.len()
        invariant
            i <= pieces@.len(),
            forall|j: int|
                0 <= j < i ==> !(#[trigger] pieces@[j].value != EMPTY_PIECE && pieces@[j].white
                    != is_white_move && spec_attacks_to(pieces@[j].moves@, king_position)),
        decreases pieces@.len() - i,
    {
        let piece = &pieces[i];
        if piece.get_value() != EMPTY_PIECE && piece.is_white() != is_white_move
            && !position_is_not_attacked(king_position, piece.get_moves_reference()) {
            return true;
        }
        i = i + 1;
    }
    false
}

/// Every square from `start` (inclusive) towards `end` (exclusive),
/// walking by `step`, is empty.
pub open spec fn spec_path_clear(s: BoardState, start: int, end: int, step: int) -> bool
    decreases
            (if step >= 0 {
                end - start
            } else {
                start - end
            }),
{
    if start == end {
        true
    } else if (step == 1 && start < end) || (step == -1 && start > end) {
        s.spec_piece_at(start as i8) == EMPTY_PIECE && spec_path_clear(s, start + step, end, step)
    } else {
        true
    }
}

/// The precondition narrows the walk to unit steps with ordered
/// endpoints: that is the only way the engine ever walks a castle path,
/// and it is what makes the walk terminate on every admitted input.
pub fn is_path_clear(board_state: &BoardState, start: i8, end: i8, step: i8) -> (r: bool)
    requires
        board_state.wf(),
        step == 1 || step == -1,
        step == 1 ==> start <= end,
        step == -1 ==> end <= start,
    ensures
        r == spec_path_clear(*board_state, start as int, end as int, step as int),
{
    let mut i = start;
    while i != end
        invariant
            board_state.wf(),
            step == 1 || step == -1,
            step == 1 ==> start <= i <= end,
            step == -1 ==> end <= i <= start,
            spec_path_clear(*board_state, start as int, end as int, step as int)
                == spec_path_clear(*board_state, i as int, end as int, step as int),
        decreases
                (if step >= 0 {
                    end - i
                } else {
                    i - end
                }),
    {
        if board_state.get_piece(i) != EMPTY_PIECE {
            return false;
        }
        i = i + step;
    }
    true
}

/// An adjacent destination for a king step, or -1 when it would leave
/// the board or wrap around its left or right edge.
pub open spec fn spec_adjacent_position(current_position: int, new_position: int) -> int {
    if !(0 <= new_position <= 63) {
        -1
    } else if current_position % 8 == 0 && (new_position == current_position - 1 || new_position
        == current_position - 9 || new_position == current_position + 7) {
        -1
    } else if (current_position + 1) % 8 == 0 && (new_position == current_position + 1
        || new_position == current_position - 7 || new_position == current_position + 9) {
        -1
    } else {
        new_position
    }
}

pub fn get_adjacent_position(current_position: i8, new_position: i8) -> (r: i8)
    requires
        0 <= current_position < 64,
    ensures
        r == spec_adjacent_position(current_position as int, new_position as int),
{
    if !(0 <= new_position && new_position <= 63) {
        return -1;
    }
    if current_position % 8 == 0 && (new_position == current_position - 1 || new_position
        == current_position - 9 || new_position == current_position + 7) {
        return -1;
    }
    if (current_position + 1) % 8 == 0 && (new_position == current_position + 1 || new_position
        == current_position - 7 || new_position == current_position + 9) {
        return -1;
    }
    new_position
}

/// A knight destination, accepted only when it lies the expected number
/// of ranks away (which rules out wrap-around); -1 otherwise.
pub open spec fn spec_knight_move(lines_apart: int, new_position: int, current_position: int) -> int {
    if spec_line_distance(current_position, new_position) == lines_apart {
        new_position
    } else {
        -1
    }
}

pub fn get_knight_move(lines_apart: i8, new_position: i8, current_position: i8) -> (r: i8)
    requires
        -24 <= new_position <= 80,
        0 <= current_position < 64,
    ensures
        r == spec_knight_move(lines_apart as int, new_position as int, current_position as int),
{
    if get_line_distance_between_positions(current_position, new_position) == lines_apart {
        return new_position;
    }
    -1
}

pub fn get_line_distance_between_positions(position1: i8, position2: i8) -> (r: i8)
    requires
        -24 <= position1 <= 80,
        -24 <= position2 <= 80,
    ensures
        r == spec_line_distance(position1 as int, position2 as int),
{
    let line_start1 = row_start(position1);
    let line_start2 = row_start(position2);
    if line_start1 > line_start2 {
        return (line_start1 - line_start2) / 8;
    }
    (line_start2 - line_start1) / 8
}

fn row_start(p: i8) -> (r: i8)
    requires
        -24 <= p <= 80,
    ensures
        r == spec_row_start(p as int),
        -24 <= r <= 80,
{
    if p >= 0 {
        p - (p % 8)
    } else {
        let q = (0 - (p as i32)) as i8;
        p + (q % 8)
    }
}

} // verus!
