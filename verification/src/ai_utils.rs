//! The static evaluator and the move-ordering layer: material,
//! pawn-structure penalties, mobility and piece-square tables, all from
//! the side to move's point of view, plus the capture/promotion/PST
//! scoring used to order moves for the search.

use vstd::prelude::*;

use crate::board::Board;
use crate::board_piece::BoardPiece;
use crate::board_state::BoardState;
use crate::move_generator_helper::spec_adjacent_position;
use crate::moves::PieceMove;
use crate::pieces::{
    get_piece_type, get_piece_worth, is_white_piece, spec_is_white, spec_piece_type,
    spec_piece_worth, PieceType, EMPTY_PIECE, KING_WORTH,
};

verus! {

pub const WHITE_PAWN_SQUARE_TABLE: [i32; 64] = [
    0, 0, 0, 0, 0, 0, 0, 0, 50, 50, 50, 50, 50, 50, 50, 50, 10, 10, 20, 30, 30, 20, 10, 10, 5, 5,
    10, 25, 25, 10, 5, 5, 0, 0, 0, 20, 20, 0, 0, 0, 5, -5, -10, 0, 0, -10, -5, 5, 5, 10, 10, -20,
    -20, 10, 10, 5, 0, 0, 0, 0, 0, 0, 0, 0,
];

pub const BLACK_PAWN_SQUARE_TABLE: [i32; 64] = [
    0, 0, 0, 0, 0, 0, 0, 0, 5, 10, 10, -20, -20, 10, 10, 5, 5, -5, -10, 0, 0, -10, -5, 5, 0, 0, 0,
    20, 20, 0, 0, 0, 5, 5, 10, 25, 25, 10, 5, 5, 10, 10, 20, 30, 30, 20, 10, 10, 50, 50, 50, 50,
    50, 50, 50, 50, 0, 0, 0, 0, 0, 0, 0, 0,
];

pub const KNIGHT_SQUARE_TABLE: [i32; 64] = [
    -50, -40, -30, -30, -30, -30, -40, -50, -40, -20, 0, 0, 0, 0, -20, -40, -30, 0, 10, 15, 15,
    10, 0, -30, -30, 5, 15, 20, 20, 15, 5, -30, -30, 0, 15, 20, 20, 15, 0, -30, -30, 5, 10, 15,
    15, 10, 5, -30, -40, -20, 0, 5, 5, 0, -20, -40, -50, -40, -30, -30, -30, -30, -40, -50,
];

pub const BISHOP_SQUARE_TABLE: [i32; 64] = [
    -20, -10, -10, -10, -10, -10, -10, -20, -10, 0, 0, 0, 0, 0, 0, -10, -10, 0, 5, 10, 10, 5, 0,
    -10, -10, 5, 5, 10, 10, 5, 5, -10, -10, 0, 10, 10, 10, 10, 0, -10, -10, 10, 10, 10, 10, 10,
    10, -10, -10, 5, 0, 0, 0, 0, 5, -10, -20, -10, -10, -10, -10, -10, -10, -20,
];

pub const ROOK_SQUARE_TABLE: [i32; 64] = [
    0, 0, 0, 0, 0, 0, 0, 0, 5, 10, 10, 10, 10, 10, 10, 5, -5, 0, 0, 0, 0, 0, 0, -5, -5, 0, 0, 0,
    0, 0, 0, -5, -5, 0, 0, 0, 0, 0, 0, -5, -5, 0, 0, 0, 0, 0, 0, -5, -5, 0, 0, 0, 0, 0, 0, -5, 0,
    0, 0, 5, 5, 0, 0, 0,
];

pub const QUEEN_SQUARE_TABLE: [i32; 64] = [
    -20, -10, -10, -5, -5, -10, -10, -20, -10, 0, 0, 0, 0, 0, 0, -10, -10, 0, 5, 5, 5, 5, 0, -10,
    -5, 0, 5, 5, 5, 5, 0, -5, 0, 0, 5, 5, 5, 5, 0, -5, -10, 5, 5, 5, 5, 5, 0, -10, -10, 0, 5, 0,
    0, 0, 0, -10, -20, -10, -10, -5, -5, -10, -10, -20,
];

pub const WHITE_KING_SQUARE_TABLE_MIDDLE_GAME: [i32; 64] = [
    -30, -40, -40, -50, -50, -40, -40, -30, -30, -40, -40, -50, -50, -40, -40, -30, -30, -40, -40,
    -50, -50, -40, -40, -30, -30, -40, -40, -50, -50, -40, -40, -30, -20, -30, -30, -40, -40, -30,
    -30, -20, -10, -20, -20, -20, -20, -20, -20, -10, 20, 20, 0, 0, 0, 0, 20, 20, 20, 30, 10, 0,
    0, 10, 30, 20,
];

pub const BLACK_KING_SQUARE_TABLE_MIDDLE_GAME: [i32; 64] = [
    20, 30, 10, 0, 0, 10, 30, 20, 20, 20, 0, 0, 0, 0, 20, 20, -10, -20, -20, -20, -20, -20, -20,
    -10, -20, -30, -30, -40, -40, -30, -30, -20, -30, -40, -40, -50, -50, -40, -40, -30, -30, -40,
    -40, -50, -50, -40, -40, -30, -30, -40, -40, -50, -50, -40, -40, -30, -30, -40, -40, -50, -50,
    -40, -40, -30,
];

pub const WHITE_KING_SQUARE_TABLE_END_GAME: [i32; 64] = [
    -50, -40, -30, -20, -20, -30, -40, -50, -30, -20, -10, 0, 0, -10, -20, -30, -30, -10, 20, 30,
    30, 20, -10, -30, -30, -10, 30, 40, 40, 30, -10, -30, -30, -10, 30, 40, 40, 30, -10, -30, -30,
    -10, 20, 30, 30, 20, -10, -30, -30, -30, 0, 0, 0, 0, -30, -30, -50, -30, -30, -30, -30, -30,
    -30, -50,
];

pub const BLACK_KING_SQUARE_TABLE_END_GAME: [i32; 64] = [
    -50, -30, -30, -30, -30, -30, -30, -50, -30, -30, 0, 0, 0, 0, -30, -30, -30, -10, 20, 30, 30,
    20, -10, -30, -30, -10, 30, 40, 40, 30, -10, -30, -30, -10, 30, 40, 40, 30, -10, -30, -30,
    -10, 20, 30, 30, 20, -10, -30, -30, -20, -10, 0, 0, -10, -20, -30, -50, -40, -30, -20, -20,
    -30, -40, -50,
];

/// The piece-square bonus of a piece on a square: pawns and kings use
/// per-color tables (the king its end-game table once few pieces
/// remain); the other types share symmetric tables.
#[verifier::opaque]
pub open spec fn spec_pst_value(
    position: int,
    piece_value: i8,
    end_game: bool,
    white_piece: bool,
) -> int {
    match spec_piece_type(piece_value) {
        PieceType::Pawn => if white_piece {
            WHITE_PAWN_SQUARE_TABLE[position] as int
        } else {
            BLACK_PAWN_SQUARE_TABLE[position] as int
        },
        PieceType::King => if end_game {
            if white_piece {
                WHITE_KING_SQUARE_TABLE_END_GAME[position] as int
            } else {
                BLACK_KING_SQUARE_TABLE_END_GAME[position] as int
            }
        } else {
            if white_piece {
                WHITE_KING_SQUARE_TABLE_MIDDLE_GAME[position] as int
            } else {
                BLACK_KING_SQUARE_TABLE_MIDDLE_GAME[position] as int
            }
        },
        PieceType::Bishop => BISHOP_SQUARE_TABLE[position] as int,
        PieceType::Knight => KNIGHT_SQUARE_TABLE[position] as int,
        PieceType::Queen => QUEEN_SQUARE_TABLE[position] as int,
        PieceType::Rook => ROOK_SQUARE_TABLE[position] as int,
        PieceType::Empty => 0,
    }
}

/// Every table entry is a small bonus or malus.
pub proof fn lemma_pst_value_bounded(
    position: int,
    piece_value: i8,
    end_game: bool,
    white_piece: bool,
)
    requires
        0 <= position < 64,
    ensures
        -50 <= spec_pst_value(position, piece_value, end_game, white_piece) <= 50,
{
    reveal(spec_pst_value);
}

pub fn get_pst_value(position: i8, piece_value: i8, end_game: bool, white_piece: bool) -> (v: i32)
    requires
        0 <= position < 64,
    ensures
        v == spec_pst_value(position as int, piece_value, end_game, white_piece),
        -50 <= v <= 50,
{
    proof {
        reveal(spec_pst_value);
    }
    let i = position as usize;
    match get_piece_type(piece_value) {
        PieceType::Pawn => if white_piece {
            WHITE_PAWN_SQUARE_TABLE[i]
        } else {
            BLACK_PAWN_SQUARE_TABLE[i]
        },
        PieceType::King => if end_game {
            if white_piece {
                WHITE_KING_SQUARE_TABLE_END_GAME[i]
            } else {
                BLACK_KING_SQUARE_TABLE_END_GAME[i]
            }
        } else {
            if white_piece {
                WHITE_KING_SQUARE_TABLE_MIDDLE_GAME[i]
            } else {
                BLACK_KING_SQUARE_TABLE_MIDDLE_GAME[i]
            }
        },
        PieceType::Bishop => BISHOP_SQUARE_TABLE[i],
        PieceType::Knight => KNIGHT_SQUARE_TABLE[i],
        PieceType::Queen => QUEEN_SQUARE_TABLE[i],
        PieceType::Rook => ROOK_SQUARE_TABLE[i],
        PieceType::Empty => 0,
    }
}

/// How many non-king pieces of one color stand in the first `n`
/// entries.
pub open spec fn spec_count_color(pieces: Seq<BoardPiece>, white: bool, n: int) -> int
    decreases n,
{
    if n <= 0 {
        0
    } else {
        spec_count_color(pieces, white, n - 1) + (if pieces[n - 1].value != EMPTY_PIECE && pieces[
            n - 1
        ].white == white && spec_piece_type(pieces[n - 1].value) != PieceType::King {
            1int
        } else {
            0int
        })
    }
}

/// The end game is on once either side is down to three non-king
/// pieces or fewer.
pub open spec fn spec_is_end_game(pieces: Seq<BoardPiece>) -> bool {
    spec_count_color(pieces, false, pieces.len() as int) <= 3 || spec_count_color(
        pieces,
        true,
        pieces.len() as int,
    ) <= 3
}

pub fn is_end_game(pieces: &Vec<BoardPiece>) -> (r: bool)
    requires
        pieces@.len() <= 64,
    ensures
        r == spec_is_end_game(pieces@),
{
    let mut black_pieces: i32 = 0;
    let mut white_pieces: i32 = 0;
    let mut i: usize = 0;
    while i < pieces.len()
        invariant
            i <= pieces@.len(),
            pieces@.len() <= 64,
            black_pieces == spec_count_color(pieces@, false, i as int),
            white_pieces == spec_count_color(pieces@, true, i as int),
            0 <= black_pieces <= i,
            0 <= white_pieces <= i,
        decreases pieces@.len() - i,
    {
        let piece = &pieces[i];
        if piece.get_value() != EMPTY_PIECE && get_piece_type(piece.get_value())
            != PieceType::King {
            if piece.is_white() {
                white_pieces = white_pieces + 1;
            } else {
                black_pieces = black_pieces + 1;
            }
        }
        i = i + 1;
    }
    black_pieces <= 3 || white_pieces <= 3
}

/// No friendly pawn stands on any of the eight squares around this one.
pub open spec fn spec_is_isolated_pawn(s: BoardState, position: int, white_piece: bool) -> bool {
    &&& !spec_adjacent_friendly_pawn(s, position, position - 1, white_piece)
    &&& !spec_adjacent_friendly_pawn(s, position, position + 1, white_piece)
    &&& !spec_adjacent_friendly_pawn(s, position, position - 9, white_piece)
    &&& !spec_adjacent_friendly_pawn(s, position, position - 8, white_piece)
    &&& !spec_adjacent_friendly_pawn(s, position, position - 7, white_piece)
    &&& !spec_adjacent_friendly_pawn(s, position, position + 7, white_piece)
    &&& !spec_adjacent_friendly_pawn(s, position, position + 8, white_piece)
    &&& !spec_adjacent_friendly_pawn(s, position, position + 9, white_piece)
}

/// An adjacent square (after the board-edge filter) holds a pawn of the
/// given color.
pub open spec fn spec_adjacent_friendly_pawn(
    s: BoardState,
    position: int,
    candidate: int,
    white_piece: bool,
) -> bool {
    let adj = spec_adjacent_position(position, candidate);
    &&& 0 <= adj < 64
    &&& s.squares@[adj] != EMPTY_PIECE
    &&& spec_piece_type(s.squares@[adj]) == PieceType::Pawn
    &&& spec_is_white(s.squares@[adj]) == white_piece
}

fn adjacent_friendly_pawn(
    board_state: &BoardState,
    position: i8,
    candidate: i8,
    white_piece: bool,
) -> (r: bool)
    requires
        board_state.wf(),
        0 <= position < 64,
    ensures
        r == spec_adjacent_friendly_pawn(
            *board_state,
            position as int,
            candidate as int,
            white_piece,
        ),
{
    let adj = crate::move_generator_helper::get_adjacent_position(position, candidate);
    if !(0 <= adj && adj < 64) {
        return false;
    }
    let piece = board_state.squares[adj as usize];
    piece != EMPTY_PIECE && get_piece_type(piece) == PieceType::Pawn && is_white_piece(piece)
        == white_piece
}

pub fn is_isolated_pawn(board_state: &BoardState, position: i8, white_piece: bool) -> (r: bool)
    requires
        board_state.wf(),
        0 <= position < 64,
    ensures
        r == spec_is_isolated_pawn(*board_state, position as int, white_piece),
{
    if adjacent_friendly_pawn(board_state, position, position - 1, white_piece) {
        return false;
    }
    if adjacent_friendly_pawn(board_state, position, position + 1, white_piece) {
        return false;
    }
    if adjacent_friendly_pawn(board_state, position, position - 9, white_piece) {
        return false;
    }
    if adjacent_friendly_pawn(board_state, position, position - 8, white_piece) {
        return false;
    }
    if adjacent_friendly_pawn(board_state, position, position - 7, white_piece) {
        return false;
    }
    if adjacent_friendly_pawn(board_state, position, position + 7, white_piece) {
        return false;
    }
    if adjacent_friendly_pawn(board_state, position, position + 8, white_piece) {
        return false;
    }
    if adjacent_friendly_pawn(board_state, position, position + 9, white_piece) {
        return false;
    }
    true
}

/// A pawn is blocked when the square immediately in front of it (towards
/// promotion) is occupied.
pub open spec fn spec_is_blocked_pawn(s: BoardState, position: int, white_piece: bool) -> bool {
    let front = position + (if white_piece {
        -8int
    } else {
        8int
    });
    &&& 0 <= front < 64
    &&& s.squares@[front] != EMPTY_PIECE
}

pub fn is_blocked_pawn(board_state: &BoardState, position: i8, white_piece: bool) -> (r: bool)
    requires
        board_state.wf(),
        0 <= position < 64,
    ensures
        r == spec_is_blocked_pawn(*board_state, position as int, white_piece),
{
    let offset: i8 = if white_piece {
        -8
    } else {
        8
    };
    let front = position + offset;
    if !(0 <= front && front < 64) {
        return false;
    }
    board_state.squares[front as usize] != EMPTY_PIECE
}

/// A friendly pawn stands on the same file on any square further toward
/// promotion, whatever else stands between.
pub open spec fn spec_is_doubled_from(
    s: BoardState,
    position: int,
    offset: int,
    white_piece: bool,
) -> bool
    decreases
            (if offset > 0 {
                72 - position
            } else {
                position + 8
            }),
{
    if !(0 <= position < 64) || !(offset == 8 || offset == -8) {
        false
    } else {
        let piece = s.squares@[position];
        (piece != EMPTY_PIECE && spec_piece_type(piece) == PieceType::Pawn && spec_is_white(piece)
            == white_piece) || spec_is_doubled_from(s, position + offset, offset, white_piece)
    }
}

pub fn is_doubled_pawn(board_state: &BoardState, position: i8, white_piece: bool) -> (r: bool)
    requires
        board_state.wf(),
        0 <= position < 64,
    ensures
        r == spec_is_doubled_from(
            *board_state,
            position + (if white_piece { -8int } else { 8int }),
            if white_piece { -8int } else { 8int },
            white_piece,
        ),
{
    let offset: i8 = if white_piece {
        -8
    } else {
        8
    };
    let mut pos: i8 = position + offset;
    while 0 <= pos && pos < 64
        invariant
            board_state.wf(),
            offset == (if white_piece { -8i8 } else { 8i8 }),
            -8 <= pos < 72,
            spec_is_doubled_from(
                *board_state,
                position + (if white_piece { -8int } else { 8int }),
                offset as int,
                white_piece,
            ) == spec_is_doubled_from(*board_state, pos as int, offset as int, white_piece),
        decreases
                (if offset > 0 {
                    72 - pos
                } else {
                    pos + 16
                }),
    {
        let piece = board_state.squares[pos as usize];
        if piece != EMPTY_PIECE && get_piece_type(piece) == PieceType::Pawn && is_white_piece(piece)
            == white_piece {
            return true;
        }
        pos = pos + offset;
    }
    false
}

/// The sign a piece contributes with: +1 for the side to move, -1 for
/// the opponent.
pub open spec fn spec_factor(s: BoardState, p: BoardPiece) -> int {
    if p.white == s.white_move {
        1
    } else {
        -1
    }
}

/// Signed material over the first `n` pieces.
pub open spec fn spec_material_sum(s: BoardState, pieces: Seq<BoardPiece>, n: int) -> int
    decreases n,
{
    if n <= 0 {
        0
    } else {
        spec_material_sum(s, pieces, n - 1) + (if pieces[n - 1].value != EMPTY_PIECE {
            spec_factor(s, pieces[n - 1]) * spec_piece_worth(pieces[n - 1].value)
        } else {
            0
        })
    }
}

/// Signed piece-square bonuses over the first `n` pieces.
pub open spec fn spec_pst_sum(
    s: BoardState,
    pieces: Seq<BoardPiece>,
    end_game: bool,
    n: int,
) -> int
    decreases n,
{
    if n <= 0 {
        0
    } else {
        spec_pst_sum(s, pieces, end_game, n - 1) + (if pieces[n - 1].value != EMPTY_PIECE {
            spec_factor(s, pieces[n - 1]) * spec_pst_value(
                pieces[n - 1].position as int,
                pieces[n - 1].value,
                end_game,
                pieces[n - 1].white,
            )
        } else {
            0
        })
    }
}

/// The doubled/blocked/isolated indicators of one pawn.
pub open spec fn spec_pawn_penalties(s: BoardState, p: BoardPiece) -> int {
    (if spec_is_doubled_from(
        s,
        p.position + (if p.white {
            -8int
        } else {
            8int
        }),
        if p.white {
            -8int
        } else {
            8int
        },
        p.white,
    ) {
        1int
    } else {
        0int
    }) + (if spec_is_blocked_pawn(s, p.position as int, p.white) {
        1int
    } else {
        0int
    }) + (if spec_is_isolated_pawn(s, p.position as int, p.white) {
        1int
    } else {
        0int
    })
}

/// Signed pawn-structure penalty counters over the first `n` pieces.
pub open spec fn spec_pawn_struct_sum(s: BoardState, pieces: Seq<BoardPiece>, n: int) -> int
    decreases n,
{
    if n <= 0 {
        0
    } else {
        spec_pawn_struct_sum(s, pieces, n - 1) + (if pieces[n - 1].value != EMPTY_PIECE
            && spec_piece_type(pieces[n - 1].value) == PieceType::Pawn {
            spec_factor(s, pieces[n - 1]) * spec_pawn_penalties(s, pieces[n - 1])
        } else {
            0
        })
    }
}

/// Signed mobility (one per generated move) over the first `n` pieces.
pub open spec fn spec_mobility_sum(s: BoardState, pieces: Seq<BoardPiece>, n: int) -> int
    decreases n,
{
    if n <= 0 {
        0
    } else {
        spec_mobility_sum(s, pieces, n - 1) + (if pieces[n - 1].value != EMPTY_PIECE {
            spec_factor(s, pieces[n - 1]) * pieces[n - 1].moves@.len()
        } else {
            0
        })
    }
}

/// Halving that rounds towards zero, as the penalty term does.
pub open spec fn spec_half_toward_zero(x: int) -> int {
    if x >= 0 {
        x / 2
    } else {
        -((-x) / 2)
    }
}

/// A tenth, rounding towards zero, as the mobility term does.
pub open spec fn spec_tenth_toward_zero(x: int) -> int {
    if x >= 0 {
        x / 10
    } else {
        -((-x) / 10)
    }
}

/// The full static score from the side to move's point of view: 0 for a
/// draw, minus a king for the checkmated side to move (plus a king when
/// the side to move has already won), else material plus piece-square
/// bonuses plus a tenth of the mobility difference minus half the
/// doubled/blocked/isolated pawn difference.
pub open spec fn spec_board_value_raw(s: BoardState, pieces: Seq<BoardPiece>) -> int {
    if s.winner == 24 {
        0
    } else if s.winner == 8 || s.winner == 16 {
        if (s.winner == 16) == s.white_move {
            KING_WORTH as int
        } else {
            -(KING_WORTH as int)
        }
    } else {
        let end_game = spec_is_end_game(pieces);
        spec_material_sum(s, pieces, pieces.len() as int) + spec_pst_sum(
            s,
            pieces,
            end_game,
            pieces.len() as int,
        ) + spec_tenth_toward_zero(spec_mobility_sum(s, pieces, pieces.len() as int))
            - spec_half_toward_zero(spec_pawn_struct_sum(s, pieces, pieces.len() as int))
    }
}

/// The score as the search consumes it: negated for the minimizing side.
pub open spec fn spec_board_value(s: BoardState, pieces: Seq<BoardPiece>, max: bool) -> int {
    if max {
        spec_board_value_raw(s, pieces)
    } else {
        -spec_board_value_raw(s, pieces)
    }
}

proof fn lemma_material_sum_bounded(s: BoardState, pieces: Seq<BoardPiece>, n: int)
    requires
        n >= 0,
    ensures
        -20000 * n <= spec_material_sum(s, pieces, n) <= 20000 * n,
    decreases n,
{
    if n > 0 {
        lemma_material_sum_bounded(s, pieces, n - 1);
    }
}

proof fn lemma_pst_sum_bounded(s: BoardState, pieces: Seq<BoardPiece>, end_game: bool, n: int)
    requires
        n >= 0,
        forall|i: int|
            0 <= i < n && (#[trigger] pieces[i]).value != EMPTY_PIECE ==> 0 <= pieces[i].position
                < 64,
    ensures
        -50 * n <= spec_pst_sum(s, pieces, end_game, n) <= 50 * n,
    decreases n,
{
    if n > 0 {
        lemma_pst_sum_bounded(s, pieces, end_game, n - 1);
        if pieces[n - 1].value != EMPTY_PIECE {
            lemma_pst_value_bounded(
                pieces[n - 1].position as int,
                pieces[n - 1].value,
                end_game,
                pieces[n - 1].white,
            );
        }
    }
}

proof fn lemma_pawn_struct_sum_bounded(s: BoardState, pieces: Seq<BoardPiece>, n: int)
    requires
        n >= 0,
    ensures
        -3 * n <= spec_pawn_struct_sum(s, pieces, n) <= 3 * n,
    decreases n,
{
    if n > 0 {
        lemma_pawn_struct_sum_bounded(s, pieces, n - 1);
    }
}

proof fn lemma_mobility_sum_bounded(s: BoardState, pieces: Seq<BoardPiece>, n: int, cap: int)
    requires
        n >= 0,
        cap >= 0,
        forall|i: int| 0 <= i < n ==> (#[trigger] pieces[i]).moves@.len() <= cap,
    ensures
        -cap * n <= spec_mobility_sum(s, pieces, n) <= cap * n,
    decreases n,
{
    if n > 0 {
        lemma_mobility_sum_bounded(s, pieces, n - 1, cap);
        assert(-cap * (n - 1) - cap == -cap * n) by (nonlinear_arith);
        assert(cap * (n - 1) + cap == cap * n) by (nonlinear_arith);
    }
}

/// The evaluator: terminal scores for a finished game, else the Shannon
/// sum of material, piece-square bonuses, a tenth of mobility and half
/// the pawn-structure penalties, each counted for the side to move and
/// against its opponent; negated when evaluating for the minimizer.
#[verifier::rlimit(100)]
pub fn get_board_value(board: &Board, max: bool, pieces: &Vec<BoardPiece>) -> (score: i32)
    requires
        board.state.wf(),
        pieces@.len() == 64,
        forall|i: int|
            0 <= i < 64 && (#[trigger] pieces@[i]).value != EMPTY_PIECE ==> 0 <= pieces@[i].position
                < 64,
        forall|i: int| 0 <= i < 64 ==> (#[trigger] pieces@[i]).moves@.len() <= 256,
    ensures
        score == spec_board_value(board.state, pieces@, max),
        -1300000 <= score <= 1300000,
{
    let winner = board.get_state_reference().winner();
    if winner == 24 {
        return 0;
    }
    if winner == 8 || winner == 16 {
        let mate = if (winner == 16) == board.is_white_move() {
            KING_WORTH
        } else {
            -KING_WORTH
        };
        return if max {
            mate
        } else {
            -mate
        };
    }
    let state = board.get_state_reference();
    let end_game = is_end_game(pieces);
    let mut material: i32 = 0;
    let mut pst: i32 = 0;
    let mut pawn_struct: i32 = 0;
    let mut mobility: i32 = 0;
    let mut i: usize = 0;
    while i < 64
        invariant
            i <= 64,
            board.state.wf(),
            state == &board.state,
            pieces@.len() == 64,
            end_game == spec_is_end_game(pieces@),
            forall|k: int|
                0 <= k < 64 && (#[trigger] pieces@[k]).value != EMPTY_PIECE ==> 0 <= pieces@[
                    k
                ].position < 64,
            forall|k: int| 0 <= k < 64 ==> (#[trigger] pieces@[k]).moves@.len() <= 256,
            material == spec_material_sum(board.state, pieces@, i as int),
            pst == spec_pst_sum(board.state, pieces@, end_game, i as int),
            pawn_struct == spec_pawn_struct_sum(board.state, pieces@, i as int),
            mobility == spec_mobility_sum(board.state, pieces@, i as int),
            -20000 * i <= material <= 20000 * i,
            -50 * i <= pst <= 50 * i,
            -3 * i <= pawn_struct <= 3 * i,
            -256 * i <= mobility <= 256 * i,
        decreases 64 - i,
    {
        proof {
            lemma_material_sum_bounded(board.state, pieces@, i as int);
            lemma_pst_sum_bounded(board.state, pieces@, end_game, i as int);
            lemma_pawn_struct_sum_bounded(board.state, pieces@, i as int);
            lemma_mobility_sum_bounded(board.state, pieces@, i as int, 256);
        }
        let piece = &pieces[i];
        if piece.get_value() != EMPTY_PIECE {
            let positive = piece.is_white() == board.is_white_move();
            proof {
                if positive {
                    assert(spec_factor(board.state, pieces@[i as int]) == 1);
                } else {
                    assert(spec_factor(board.state, pieces@[i as int]) == -1);
                }
            }
            let worth = get_piece_worth(piece.get_value());
            let bonus = get_pst_value(
                piece.get_position(),
                piece.get_value(),
                end_game,
                piece.is_white(),
            );
            let mut penalties: i32 = 0;
            if get_piece_type(piece.get_value()) == PieceType::Pawn {
                if is_doubled_pawn(state, piece.get_position(), piece.is_white()) {
                    penalties = penalties + 1;
                }
                if is_blocked_pawn(state, piece.get_position(), piece.is_white()) {
                    penalties = penalties + 1;
                }
                if is_isolated_pawn(state, piece.get_position(), piece.is_white()) {
                    penalties = penalties + 1;
                }
            }
            let move_count = piece.get_moves_reference().len() as i32;
            proof {
                if spec_piece_type(piece.value) == PieceType::Pawn {
                    assert(penalties == spec_pawn_penalties(board.state, pieces@[i as int]));
                }
            }
            if positive {
                material = material + worth;
                pst = pst + bonus;
                pawn_struct = pawn_struct + penalties;
                mobility = mobility + move_count;
            } else {
                material = material - worth;
                pst = pst - bonus;
                pawn_struct = pawn_struct - penalties;
                mobility = mobility - move_count;
            }
        }
        proof {
            let s = board.state;
            let n = i as int + 1;
            let p = pieces@[i as int];
            if p.value != EMPTY_PIECE {
                if p.white == s.white_move {
                    assert(spec_factor(s, p) == 1);
                    assert(spec_factor(s, p) * spec_piece_worth(p.value) == spec_piece_worth(
                        p.value,
                    )) by (nonlinear_arith)
                        requires
                            spec_factor(s, p) == 1,
                    ;
                    assert(spec_factor(s, p) * spec_pst_value(
                        p.position as int,
                        p.value,
                        end_game,
                        p.white,
                    ) == spec_pst_value(p.position as int, p.value, end_game, p.white))
                        by (nonlinear_arith)
                        requires
                            spec_factor(s, p) == 1,
                    ;
                    assert(spec_factor(s, p) * spec_pawn_penalties(s, p) == spec_pawn_penalties(
                        s,
                        p,
                    )) by (nonlinear_arith)
                        requires
                            spec_factor(s, p) == 1,
                    ;
                    assert(spec_factor(s, p) * p.moves@.len() == p.moves@.len())
                        by (nonlinear_arith)
                        requires
                            spec_factor(s, p) == 1,
                    ;
                } else {
                    assert(spec_factor(s, p) == -1);
                    assert(spec_factor(s, p) * spec_piece_worth(p.value) == -spec_piece_worth(
                        p.value,
                    )) by (nonlinear_arith)
                        requires
                            spec_factor(s, p) == -1,
                    ;
                    assert(spec_factor(s, p) * spec_pst_value(
                        p.position as int,
                        p.value,
                        end_game,
                        p.white,
                    ) == -spec_pst_value(p.position as int, p.value, end_game, p.white))
                        by (nonlinear_arith)
                        requires
                            spec_factor(s, p) == -1,
                    ;
                    assert(spec_factor(s, p) * spec_pawn_penalties(s, p) == -spec_pawn_penalties(
                        s,
                        p,
                    )) by (nonlinear_arith)
                        requires
                            spec_factor(s, p) == -1,
                    ;
                    assert(spec_factor(s, p) * p.moves@.len() == -(p.moves@.len() as int))
                        by (nonlinear_arith)
                        requires
                            spec_factor(s, p) == -1,
                    ;
                }
            }
            assert(spec_material_sum(s, pieces@, n) == spec_material_sum(s, pieces@, n - 1) + (
            if pieces@[n - 1].value != EMPTY_PIECE {
                spec_factor(s, pieces@[n - 1]) * spec_piece_worth(pieces@[n - 1].value)
            } else {
                0int
            }));
            assert(spec_pst_sum(s, pieces@, end_game, n) == spec_pst_sum(s, pieces@, end_game, n - 1)
                + (if pieces@[n - 1].value != EMPTY_PIECE {
                spec_factor(s, pieces@[n - 1]) * spec_pst_value(
                    pieces@[n - 1].position as int,
                    pieces@[n - 1].value,
                    end_game,
                    pieces@[n - 1].white,
                )
            } else {
                0int
            }));
            assert(spec_pawn_struct_sum(s, pieces@, n) == spec_pawn_struct_sum(s, pieces@, n - 1) + (
            if pieces@[n - 1].value != EMPTY_PIECE && spec_piece_type(pieces@[n - 1].value)
                == PieceType::Pawn {
                spec_factor(s, pieces@[n - 1]) * spec_pawn_penalties(s, pieces@[n - 1])
            } else {
                0int
            }));
            assert(spec_mobility_sum(s, pieces@, n) == spec_mobility_sum(s, pieces@, n - 1) + (
            if pieces@[n - 1].value != EMPTY_PIECE {
                spec_factor(s, pieces@[n - 1]) * pieces@[n - 1].moves@.len()
            } else {
                0int
            }));
        }
        i = i + 1;
    }
    proof {
        lemma_material_sum_bounded(board.state, pieces@, 64);
        lemma_pst_sum_bounded(board.state, pieces@, end_game, 64);
        lemma_pawn_struct_sum_bounded(board.state, pieces@, 64);
        lemma_mobility_sum_bounded(board.state, pieces@, 64, 256);
    }
    let mobility_tenth = if mobility >= 0 {
        mobility / 10
    } else {
        -((-mobility) / 10)
    };
    let struct_half = if pawn_struct >= 0 {
        pawn_struct / 2
    } else {
        -((-pawn_struct) / 2)
    };
    let score = material + pst + mobility_tenth - struct_half;
    if max {
        score
    } else {
        -score
    }
}

/// The doubled-pawn scan reads the squares alone.
proof fn lemma_doubled_same(s1: BoardState, s2: BoardState, position: int, offset: int, white: bool)
    requires
        s1.squares@ == s2.squares@,
    ensures
        spec_is_doubled_from(s1, position, offset, white) == spec_is_doubled_from(
            s2,
            position,
            offset,
            white,
        ),
    decreases
            (if offset > 0 {
                72 - position
            } else {
                position + 8
            }),
{
    if (0 <= position < 64) && (offset == 8 || offset == -8) {
        lemma_doubled_same(s1, s2, position + offset, offset, white);
    }
}

proof fn lemma_material_sum_flip(s1: BoardState, s2: BoardState, pieces: Seq<BoardPiece>, n: int)
    requires
        s2.white_move == !s1.white_move,
    ensures
        spec_material_sum(s2, pieces, n) == -spec_material_sum(s1, pieces, n),
    decreases n,
{
    if n > 0 {
        lemma_material_sum_flip(s1, s2, pieces, n - 1);
    }
}

proof fn lemma_pst_sum_flip(
    s1: BoardState,
    s2: BoardState,
    pieces: Seq<BoardPiece>,
    end_game: bool,
    n: int,
)
    requires
        s2.white_move == !s1.white_move,
    ensures
        spec_pst_sum(s2, pieces, end_game, n) == -spec_pst_sum(s1, pieces, end_game, n),
    decreases n,
{
    if n > 0 {
        lemma_pst_sum_flip(s1, s2, pieces, end_game, n - 1);
    }
}

proof fn lemma_pawn_struct_sum_flip(
    s1: BoardState,
    s2: BoardState,
    pieces: Seq<BoardPiece>,
    n: int,
)
    requires
        s2.white_move == !s1.white_move,
        s2.squares@ == s1.squares@,
    ensures
        spec_pawn_struct_sum(s2, pieces, n) == -spec_pawn_struct_sum(s1, pieces, n),
    decreases n,
{
    if n > 0 {
        lemma_pawn_struct_sum_flip(s1, s2, pieces, n - 1);
        let p = pieces[n - 1];
        lemma_doubled_same(
            s1,
            s2,
            p.position + (if p.white {
                -8int
            } else {
                8int
            }),
            if p.white {
                -8int
            } else {
                8int
            },
            p.white,
        );
    }
}

proof fn lemma_mobility_sum_flip(s1: BoardState, s2: BoardState, pieces: Seq<BoardPiece>, n: int)
    requires
        s2.white_move == !s1.white_move,
    ensures
        spec_mobility_sum(s2, pieces, n) == -spec_mobility_sum(s1, pieces, n),
    decreases n,
{
    if n > 0 {
        lemma_mobility_sum_flip(s1, s2, pieces, n - 1);
    }
}

/// Law: flipping the side to move negates the evaluator.  For any two
/// positions that agree on everything but the side to move (same
/// squares, same winner code), and any piece array, the raw score of one
/// is the exact negation of the raw score of the other.
pub proof fn lemma_evaluator_side_to_move_antisymmetric(
    s1: BoardState,
    s2: BoardState,
    pieces: Seq<BoardPiece>,
)
    requires
        s2.squares@ == s1.squares@,
        s2.white_move == !s1.white_move,
        s2.winner == s1.winner,
    ensures
        spec_board_value_raw(s2, pieces) == -spec_board_value_raw(s1, pieces),
{
    if s1.winner == 24 {
    } else if s1.winner == 8 || s1.winner == 16 {
    } else {
        let n = pieces.len() as int;
        lemma_material_sum_flip(s1, s2, pieces, n);
        lemma_pst_sum_flip(s1, s2, pieces, spec_is_end_game(pieces), n);
        lemma_pawn_struct_sum_flip(s1, s2, pieces, n);
        lemma_mobility_sum_flip(s1, s2, pieces, n);
    }
}



/// Square-list containment survives appending.
pub proof fn lemma_squares_contains_push(out: Seq<i8>, x: i8, sq: i8)
    requires
        out.contains(sq),
    ensures
        out.push(x).contains(sq),
{
    let k = choose|k: int| 0 <= k < out.len() && out[k] == sq;
    assert(out.push(x)[k] == sq);
}


/// The move with its transient worth zeroed.
pub open spec fn spec_erase_worth(m: PieceMove) -> PieceMove {
    PieceMove { move_worth: 0, ..m }
}

/// A move list with every transient worth zeroed.
pub open spec fn spec_erased(ms: Seq<PieceMove>) -> Seq<PieceMove> {
    ms.map_values(|mm: PieceMove| spec_erase_worth(mm))
}

/// What one generated move contributes to the flattened list: a
/// promotion becomes its four promotion choices in option order,
/// anything else stands as it is (worths zeroed).
pub open spec fn spec_expand_move(m: PieceMove) -> Seq<PieceMove> {
    if m.is_promotion {
        let opts = crate::pieces::spec_promotion_options(spec_is_white(m.piece_value));
        seq![
            PieceMove { move_worth: 0, promotion_type: opts[0], ..m },
            PieceMove { move_worth: 0, promotion_type: opts[1], ..m },
            PieceMove { move_worth: 0, promotion_type: opts[2], ..m },
            PieceMove { move_worth: 0, promotion_type: opts[3], ..m },
        ]
    } else {
        seq![spec_erase_worth(m)]
    }
}

/// The expansion of the first `n` moves of one list.
pub open spec fn spec_expand_list(ms: Seq<PieceMove>, n: int) -> Seq<PieceMove>
    decreases n,
{
    if n <= 0 {
        Seq::<PieceMove>::empty()
    } else {
        spec_expand_list(ms, n - 1) + spec_expand_move(ms[n - 1])
    }
}

/// The whole flattened move list of the side to move, in board order:
/// each piece's generated moves expanded in place.
pub open spec fn spec_expanded_moves_of(pieces: Seq<BoardPiece>, white: bool, n: int) -> Seq<
    PieceMove,
>
    decreases n,
{
    if n <= 0 {
        Seq::<PieceMove>::empty()
    } else {
        spec_expanded_moves_of(pieces, white, n - 1) + (if pieces[n - 1].white == white {
            spec_expand_list(pieces[n - 1].moves@, pieces[n - 1].moves@.len() as int)
        } else {
            Seq::<PieceMove>::empty()
        })
    }
}

/// Erasing worths commutes with appending.
pub proof fn lemma_erased_push(s: Seq<PieceMove>, x: PieceMove)
    ensures
        spec_erased(s.push(x)) == spec_erased(s).push(spec_erase_worth(x)),
{
    assert(spec_erased(s.push(x)) =~= spec_erased(s).push(spec_erase_worth(x)));
}

/// Erasing worths commutes with removal.
pub proof fn lemma_erased_remove(s: Seq<PieceMove>, i: int)
    requires
        0 <= i < s.len(),
    ensures
        spec_erased(s.remove(i)) == spec_erased(s).remove(i),
{
    assert(spec_erased(s.remove(i)) =~= spec_erased(s).remove(i));
}

/// Two moves agree on everything but the transient worth.
pub open spec fn spec_same_except_worth(a: PieceMove, b: PieceMove) -> bool {
    &&& a.from_position == b.from_position
    &&& a.to_position == b.to_position
    &&& a.piece_value == b.piece_value
    &&& a.promotion_type == b.promotion_type
    &&& a.is_capture == b.is_capture
    &&& a.is_en_passant == b.is_en_passant
    &&& a.is_promotion == b.is_promotion
}

/// The list holds the move, up to the transient worth.
pub open spec fn spec_contains_up_to_worth(ms: Seq<PieceMove>, m: PieceMove) -> bool {
    exists|k: int| 0 <= k < ms.len() && spec_same_except_worth(#[trigger] ms[k], m)
}

/// The move is carried into the flattened list: a promotion once per
/// promotion choice, anything else as it stands.
pub open spec fn spec_move_expanded_in(out: Seq<PieceMove>, m: PieceMove) -> bool {
    if m.is_promotion {
        forall|o: int|
            0 <= o < crate::pieces::spec_promotion_options(spec_is_white(m.piece_value)).len()
                ==> spec_contains_up_to_worth(
                out,
                PieceMove {
                    promotion_type: crate::pieces::spec_promotion_options(
                        spec_is_white(m.piece_value),
                    )[o],
                    ..m
                },
            )
    } else {
        spec_contains_up_to_worth(out, m)
    }
}

/// Every move of the side to move is carried into the flattened list.
pub open spec fn spec_expansion_complete(
    pieces: Seq<BoardPiece>,
    out: Seq<PieceMove>,
    white: bool,
) -> bool {
    forall|i: int, j: int|
        0 <= i < pieces.len() && (#[trigger] pieces[i]).white == white && 0 <= j
            < pieces[i].moves@.len() ==> spec_move_expanded_in(out, #[trigger] pieces[i].moves@[j])
}

/// The pairs of the first `i` pieces, and of piece `i` up to move `k`,
/// are carried into the flattened list.
pub open spec fn spec_prefix_complete(
    pieces: Seq<BoardPiece>,
    out: Seq<PieceMove>,
    white: bool,
    i: int,
    k: int,
) -> bool {
    forall|ii: int, j: int|
        0 <= ii < pieces.len() && (#[trigger] pieces[ii]).white == white && 0 <= j
            < pieces[ii].moves@.len() && (ii < i || (ii == i && j < k))
            ==> spec_move_expanded_in(out, #[trigger] pieces[ii].moves@[j])
}

/// Containment up to worth survives appending.
pub proof fn lemma_contains_up_to_worth_push(out: Seq<PieceMove>, x: PieceMove, m: PieceMove)
    requires
        spec_contains_up_to_worth(out, m),
    ensures
        spec_contains_up_to_worth(out.push(x), m),
{
    let k = choose|k: int| 0 <= k < out.len() && spec_same_except_worth(#[trigger] out[k], m);
    assert(spec_same_except_worth(out.push(x)[k], m));
}

/// Being carried into the list survives appending.
pub proof fn lemma_expanded_in_push(out: Seq<PieceMove>, x: PieceMove, m: PieceMove)
    requires
        spec_move_expanded_in(out, m),
    ensures
        spec_move_expanded_in(out.push(x), m),
{
    if m.is_promotion {
        assert forall|o: int|
            0 <= o < crate::pieces::spec_promotion_options(
                spec_is_white(m.piece_value),
            ).len() implies spec_contains_up_to_worth(
            out.push(x),
            PieceMove {
                promotion_type: crate::pieces::spec_promotion_options(
                    spec_is_white(m.piece_value),
                )[o],
                ..m
            },
        ) by {
            lemma_contains_up_to_worth_push(
                out,
                x,
                PieceMove {
                    promotion_type: crate::pieces::spec_promotion_options(
                        spec_is_white(m.piece_value),
                    )[o],
                    ..m
                },
            );
        }
    } else {
        lemma_contains_up_to_worth_push(out, x, m);
    }
}

/// The carried prefix survives appending.
pub proof fn lemma_prefix_complete_push(
    pieces: Seq<BoardPiece>,
    out: Seq<PieceMove>,
    x: PieceMove,
    white: bool,
    i: int,
    k: int,
)
    requires
        spec_prefix_complete(pieces, out, white, i, k),
    ensures
        spec_prefix_complete(pieces, out.push(x), white, i, k),
{
    assert forall|ii: int, j: int|
        0 <= ii < pieces.len() && (#[trigger] pieces[ii]).white == white && 0 <= j
            < pieces[ii].moves@.len() && (ii < i || (ii == i && j < k)) implies spec_move_expanded_in(
        out.push(x),
        #[trigger] pieces[ii].moves@[j],
    ) by {
        lemma_expanded_in_push(out, x, pieces[ii].moves@[j]);
    }
}

/// Two moves agree on everything but the transient worth and the chosen
/// promotion piece.
pub open spec fn spec_same_except_worth_promo(a: PieceMove, b: PieceMove) -> bool {
    &&& a.from_position == b.from_position
    &&& a.to_position == b.to_position
    &&& a.piece_value == b.piece_value
    &&& a.is_capture == b.is_capture
    &&& a.is_en_passant == b.is_en_passant
    &&& a.is_promotion == b.is_promotion
}

/// The move stems (up to worth and promotion choice) from the move list
/// of a piece of the given color.
pub open spec fn spec_from_piece_moves(pieces: Seq<BoardPiece>, m: PieceMove, white: bool) -> bool {
    exists|i: int, j: int|
        0 <= i < pieces.len() && (#[trigger] pieces[i]).white == white && 0 <= j
            < pieces[i].moves@.len() && spec_same_except_worth_promo(
            #[trigger] pieces[i].moves@[j],
            m,
        )
}

/// Some enemy move of the array ends on the given square.
pub open spec fn spec_attacked_position(pieces: Seq<BoardPiece>, sq: i8, white: bool) -> bool {
    exists|i: int, j: int|
        0 <= i < pieces.len() && (#[trigger] pieces[i]).white != white && 0 <= j
            < pieces[i].moves@.len() && (#[trigger] pieces[i].moves@[j]).to_position == sq
}

/// Flatten the side to move's lists into one move list (each promotion
/// expanded into its four piece choices) and collect every square the
/// opponent's moves reach.
pub fn get_friendly_moves_and_attacked_positions(
    pieces: &Vec<BoardPiece>,
    board: &Board,
) -> (r: (Vec<PieceMove>, Vec<i8>))
    ensures
        forall|j: int|
            0 <= j < r.0@.len() ==> spec_from_piece_moves(
                pieces@,
                #[trigger] r.0@[j],
                board.state.white_move,
            ),
        forall|j: int|
            0 <= j < r.0@.len() ==> ((#[trigger] r.0@[j]).is_promotion
                ==> crate::pieces::spec_promotion_options(
                spec_is_white(r.0@[j].piece_value),
            ).contains(r.0@[j].promotion_type)),
        forall|j: int|
            0 <= j < r.1@.len() ==> spec_attacked_position(
                pieces@,
                #[trigger] r.1@[j],
                board.state.white_move,
            ),
        r.0@.len() == 0 ==> (forall|i: int|
            0 <= i < pieces@.len() && (#[trigger] pieces@[i]).white == board.state.white_move
                ==> pieces@[i].moves@.len() == 0),
        spec_expansion_complete(pieces@, r.0@, board.state.white_move),
        spec_erased(r.0@) == spec_expanded_moves_of(
            pieces@,
            board.state.white_move,
            pieces@.len() as int,
        ),
        forall|i: int, j: int|
            0 <= i < pieces@.len() && (#[trigger] pieces@[i]).white != board.state.white_move && 0
                <= j < pieces@[i].moves@.len() ==> r.1@.contains(
                (#[trigger] pieces@[i].moves@[j]).to_position,
            ),
{
    let white_move = board.is_white_move();
    let mut moves: Vec<PieceMove> = Vec::new();
    let mut attacked_positions: Vec<i8> = Vec::new();
    let mut i: usize = 0;
    while i < pieces.len()
        invariant
            i <= pieces@.len(),
            white_move == board.state.white_move,
            forall|j: int|
                0 <= j < moves@.len() ==> spec_from_piece_moves(
                    pieces@,
                    #[trigger] moves@[j],
                    white_move,
                ),
            forall|j: int|
                0 <= j < moves@.len() ==> ((#[trigger] moves@[j]).is_promotion
                    ==> crate::pieces::spec_promotion_options(
                    spec_is_white(moves@[j].piece_value),
                ).contains(moves@[j].promotion_type)),
            forall|j: int|
                0 <= j < attacked_positions@.len() ==> spec_attacked_position(
                    pieces@,
                    #[trigger] attacked_positions@[j],
                    white_move,
                ),
            moves@.len() == 0 ==> (forall|k: int|
                0 <= k < i && (#[trigger] pieces@[k]).white == white_move ==> pieces@[k].moves@.len()
                    == 0),
            spec_prefix_complete(pieces@, moves@, white_move, i as int, 0),
            spec_erased(moves@) == spec_expanded_moves_of(pieces@, white_move, i as int),
            forall|ii: int, j: int|
                0 <= ii < i && (#[trigger] pieces@[ii]).white != white_move && 0 <= j < pieces@[
                    ii
                ].moves@.len() ==> attacked_positions@.contains(
                    (#[trigger] pieces@[ii].moves@[j]).to_position,
                ),
        decreases pieces@.len() - i,
    {
        let piece = &pieces[i];
        let ghost entry_len = moves@.len();
        let ghost expanded_prefix = spec_expanded_moves_of(pieces@, white_move, i as int);
        proof {
            if i == 0 {
                assert(spec_erased(moves@) =~= spec_expanded_moves_of(pieces@, white_move, 0));
            }
        }
        let mut k: usize = 0;
        if piece.is_white() == white_move {
            while k < piece.moves.len()
                invariant
                    k <= piece.moves@.len(),
                    0 <= i < pieces@.len(),
                    piece == &pieces@[i as int],
                    piece.white == white_move,
                    moves@.len() >= entry_len + k,
                    spec_prefix_complete(pieces@, moves@, white_move, i as int, k as int),
                    spec_erased(moves@) == expanded_prefix + spec_expand_list(
                        piece.moves@,
                        k as int,
                    ),
                    expanded_prefix == spec_expanded_moves_of(pieces@, white_move, i as int),
                    forall|j: int|
                        0 <= j < moves@.len() ==> spec_from_piece_moves(
                            pieces@,
                            #[trigger] moves@[j],
                            white_move,
                        ),
                    forall|j: int|
                        0 <= j < moves@.len() ==> ((#[trigger] moves@[j]).is_promotion
                            ==> crate::pieces::spec_promotion_options(
                            spec_is_white(moves@[j].piece_value),
                        ).contains(moves@[j].promotion_type)),
                decreases piece.moves@.len() - k,
            {
                let m = piece.moves[k];
                let ghost pre_k_len = moves@.len();
                if m.is_promotion() {
                    let options = crate::pieces::get_promotion_options(is_white_piece(
                        m.get_piece_value(),
                    ));
                    let mut o: usize = 0;
                    while o < options.len()
                        invariant
                            o <= options@.len(),
                            moves@.len() == pre_k_len + o,
                            options@ == crate::pieces::spec_promotion_options(
                                spec_is_white(m.piece_value),
                            ),
                            0 <= i < pieces@.len(),
                            0 <= k < pieces@[i as int].moves@.len(),
                            m == pieces@[i as int].moves@[k as int],
                            pieces@[i as int].white == white_move,
                            m.is_promotion,
                            spec_prefix_complete(
                                pieces@,
                                moves@,
                                white_move,
                                i as int,
                                k as int,
                            ),
                            spec_erased(moves@) == expanded_prefix + spec_expand_list(
                                piece.moves@,
                                k as int,
                            ) + spec_expand_move(m).subrange(0, o as int),
                            expanded_prefix == spec_expanded_moves_of(
                                pieces@,
                                white_move,
                                i as int,
                            ),
                            piece == &pieces@[i as int],
                            forall|oo: int|
                                0 <= oo < o ==> spec_contains_up_to_worth(
                                    moves@,
                                    (PieceMove { promotion_type: options@[oo], ..m }),
                                ),
                            forall|j: int|
                                0 <= j < moves@.len() ==> spec_from_piece_moves(
                                    pieces@,
                                    #[trigger] moves@[j],
                                    white_move,
                                ),
                            forall|j: int|
                                0 <= j < moves@.len() ==> ((#[trigger] moves@[j]).is_promotion
                                    ==> crate::pieces::spec_promotion_options(
                                    spec_is_white(moves@[j].piece_value),
                                ).contains(moves@[j].promotion_type)),
                        decreases options@.len() - o,
                    {
                        let mut clone = m;
                        clone.set_promotion_value(options[o]);
                        let ghost pre_push = moves@;
                        moves.push(clone);
                        proof {
                            lemma_prefix_complete_push(
                                pieces@,
                                pre_push,
                                clone,
                                white_move,
                                i as int,
                                k as int,
                            );
                            lemma_erased_push(pre_push, clone);
                            assert(spec_erase_worth(clone) == spec_expand_move(m)[o as int]);
                            assert(spec_expand_move(m).subrange(0, o as int + 1)
                                =~= spec_expand_move(m).subrange(0, o as int).push(
                                spec_expand_move(m)[o as int],
                            ));
                            assert(spec_erased(moves@) =~= expanded_prefix + spec_expand_list(
                                piece.moves@,
                                k as int,
                            ) + spec_expand_move(m).subrange(0, o as int + 1));
                            assert forall|oo: int| 0 <= oo < o + 1 implies spec_contains_up_to_worth(
                                moves@,
                                (PieceMove { promotion_type: options@[oo], ..m }),
                            ) by {
                                if oo < o {
                                    lemma_contains_up_to_worth_push(
                                        pre_push,
                                        clone,
                                        (PieceMove { promotion_type: options@[oo], ..m }),
                                    );
                                } else {
                                    assert(spec_same_except_worth(
                                        moves@[moves@.len() - 1],
                                        (PieceMove { promotion_type: options@[oo], ..m }),
                                    ));
                                }
                            }
                        }
                        o = o + 1;
                    }
                    proof {
                        assert(spec_move_expanded_in(moves@, m));
                        assert(spec_prefix_complete(
                            pieces@,
                            moves@,
                            white_move,
                            i as int,
                            k as int + 1,
                        ));
                        assert(spec_expand_move(m).subrange(0, 4) =~= spec_expand_move(m));
                        assert(spec_erased(moves@) =~= expanded_prefix + spec_expand_list(
                            piece.moves@,
                            k as int + 1,
                        ));
                    }
                } else {
                    let ghost pre_push = moves@;
                    moves.push(m);
                    proof {
                        lemma_prefix_complete_push(
                            pieces@,
                            pre_push,
                            m,
                            white_move,
                            i as int,
                            k as int,
                        );
                        assert(spec_same_except_worth(moves@[moves@.len() - 1], m));
                        assert(spec_move_expanded_in(moves@, m));
                        assert(spec_prefix_complete(
                            pieces@,
                            moves@,
                            white_move,
                            i as int,
                            k as int + 1,
                        ));
                        lemma_erased_push(pre_push, m);
                        assert(spec_expand_move(m) =~= seq![spec_erase_worth(m)]);
                        assert(spec_erased(moves@) =~= expanded_prefix + spec_expand_list(
                            piece.moves@,
                            k as int + 1,
                        ));
                    }
                }
                k = k + 1;
            }
        } else {
            while k < piece.moves.len()
                invariant
                    k <= piece.moves@.len(),
                    0 <= i < pieces@.len(),
                    piece == &pieces@[i as int],
                    piece.white != white_move,
                    forall|j: int|
                        0 <= j < attacked_positions@.len() ==> spec_attacked_position(
                            pieces@,
                            #[trigger] attacked_positions@[j],
                            white_move,
                        ),
                    forall|ii: int, j: int|
                        0 <= ii < i && (#[trigger] pieces@[ii]).white != white_move && 0 <= j
                            < pieces@[ii].moves@.len() ==> attacked_positions@.contains(
                            (#[trigger] pieces@[ii].moves@[j]).to_position,
                        ),
                    forall|j: int|
                        0 <= j < k ==> attacked_positions@.contains(
                            (#[trigger] piece.moves@[j]).to_position,
                        ),
                decreases piece.moves@.len() - k,
            {
                let ghost pre_att = attacked_positions@;
                attacked_positions.push(piece.moves[k].get_to_position());
                proof {
                    assert forall|ii: int, j: int|
                        0 <= ii < i && (#[trigger] pieces@[ii]).white != white_move && 0 <= j
                            < pieces@[ii].moves@.len() implies attacked_positions@.contains(
                        (#[trigger] pieces@[ii].moves@[j]).to_position,
                    ) by {
                        lemma_squares_contains_push(
                            pre_att,
                            piece.moves@[k as int].to_position,
                            pieces@[ii].moves@[j].to_position,
                        );
                    }
                    assert forall|j: int| 0 <= j < k + 1 implies attacked_positions@.contains(
                        (#[trigger] piece.moves@[j]).to_position,
                    ) by {
                        if j < k {
                            lemma_squares_contains_push(
                                pre_att,
                                piece.moves@[k as int].to_position,
                                piece.moves@[j].to_position,
                            );
                        } else {
                            assert(attacked_positions@[attacked_positions@.len() - 1]
                                == piece.moves@[j].to_position);
                        }
                    }
                }
                k = k + 1;
            }
        }
        proof {
            assert(spec_erased(moves@) =~= spec_expanded_moves_of(
                pieces@,
                white_move,
                i as int + 1,
            ));
        }
        i = i + 1;
    }
    proof {
        assert(spec_expansion_complete(pieces@, moves@, white_move));
    }
    (moves, attacked_positions)
}


/// The ordering worth of a move, per the scoring layer: the capture
/// gain (target worth minus mover worth, a king counted once more), the
/// chosen promotion piece's worth, the mover's worth again when the
/// destination is covered by an opponent move, and the destination's
/// piece-square bonus.
pub open spec fn spec_move_worth(s: BoardState, pieces: Seq<BoardPiece>, m: PieceMove) -> int {
    let moving = s.spec_piece_at(m.from_position);
    let target = s.spec_piece_at(m.to_position);
    (if m.is_capture {
        spec_piece_worth(target) - spec_piece_worth(moving) + (if spec_piece_type(target)
            == PieceType::King {
            KING_WORTH as int
        } else {
            0int
        })
    } else {
        0int
    }) + (if m.is_promotion {
        spec_piece_worth(m.promotion_type) as int
    } else {
        0int
    }) + (if spec_attacked_position(pieces, m.to_position, s.white_move) {
        spec_piece_worth(moving) as int
    } else {
        0int
    }) + (if 0 <= m.to_position < 64 {
        spec_pst_value(
            m.to_position as int,
            m.piece_value,
            spec_is_end_game(pieces),
            spec_is_white(m.piece_value),
        )
    } else {
        0int
    })
}

/// The worth held inside the i32 window the scoring layer uses.
pub open spec fn spec_clamp_worth(x: int) -> int {
    if x > 2000000 {
        2000000
    } else if x < -2000000 {
        -2000000
    } else {
        x
    }
}

/// Moves sorted by worth: descending for the maximizing side, ascending
/// for the minimizing side.
pub open spec fn spec_sorted_by_worth(ms: Seq<PieceMove>, descending: bool) -> bool {
    forall|i: int, j: int|
        0 <= i < j < ms.len() ==> (if descending {
            (#[trigger] ms[i]).move_worth >= (#[trigger] ms[j]).move_worth
        } else {
            ms[i].move_worth <= ms[j].move_worth
        })
}

/// Selection sort by the transient worth field: the result is a
/// permutation (multiset-equal rearrangement) of the input.
fn sort_moves_by_worth(moves: &mut Vec<PieceMove>, descending: bool)
    ensures
        final(moves)@.len() == old(moves)@.len(),
        spec_sorted_by_worth(final(moves)@, descending),
        final(moves)@.to_multiset() == old(moves)@.to_multiset(),
        spec_erased(final(moves)@).to_multiset() == spec_erased(old(moves)@).to_multiset(),
        forall|j: int|
            0 <= j < final(moves)@.len() ==> old(moves)@.contains(#[trigger] final(moves)@[j]),
        forall|j: int|
            0 <= j < old(moves)@.len() ==> final(moves)@.contains(#[trigger] old(moves)@[j]),
{
    broadcast use vstd::seq_lib::group_to_multiset_ensures;

    let ghost orig = moves@;
    let mut work: Vec<PieceMove> = Vec::new();
    while moves.len() > 0
        invariant
            work@.to_multiset().add(moves@.to_multiset()) == orig.to_multiset(),
            spec_erased(work@).to_multiset().add(spec_erased(moves@).to_multiset())
                == spec_erased(orig).to_multiset(),
            work@.len() + moves@.len() == orig.len(),
        decreases moves@.len(),
    {
        let ghost pre_moves = moves@;
        let ghost pre_work = work@;
        match moves.pop() {
            Some(m) => {
                work.push(m);
                proof {
                    vstd::seq_lib::to_multiset_build(moves@, m);
                    vstd::seq_lib::to_multiset_build(pre_work, m);
                    assert(pre_moves == moves@.push(m));
                    assert(pre_moves.to_multiset() =~= moves@.to_multiset().insert(m));
                    assert(work@.to_multiset() =~= pre_work.to_multiset().insert(m));
                    assert(work@.to_multiset().add(moves@.to_multiset())
                        =~= pre_work.to_multiset().add(pre_moves.to_multiset()));
                    lemma_erased_push(moves@, m);
                    lemma_erased_push(pre_work, m);
                    vstd::seq_lib::to_multiset_build(spec_erased(moves@), spec_erase_worth(m));
                    vstd::seq_lib::to_multiset_build(spec_erased(pre_work), spec_erase_worth(m));
                    assert(spec_erased(pre_moves).to_multiset() =~= spec_erased(
                        moves@,
                    ).to_multiset().insert(spec_erase_worth(m)));
                    assert(spec_erased(work@).to_multiset() =~= spec_erased(
                        pre_work,
                    ).to_multiset().insert(spec_erase_worth(m)));
                    assert(spec_erased(work@).to_multiset().add(spec_erased(moves@).to_multiset())
                        =~= spec_erased(pre_work).to_multiset().add(
                        spec_erased(pre_moves).to_multiset(),
                    ));
                }
            },
            None => {},
        }
    }
    while work.len() > 0
        invariant
            work@.to_multiset().add(moves@.to_multiset()) == orig.to_multiset(),
            spec_erased(work@).to_multiset().add(spec_erased(moves@).to_multiset())
                == spec_erased(orig).to_multiset(),
            moves@.len() + work@.len() == orig.len(),
            spec_sorted_by_worth(moves@, descending),
            forall|a: int, b: int|
                0 <= a < moves@.len() && 0 <= b < work@.len() ==> (if descending {
                    (#[trigger] moves@[a]).move_worth >= (#[trigger] work@[b]).move_worth
                } else {
                    moves@[a].move_worth <= work@[b].move_worth
                }),
        decreases work@.len(),
    {
        let n = work.len();
        let mut best: usize = 0;
        let mut j: usize = 1;
        while j < n
            invariant
                best < j <= n,
                n == work@.len(),
                forall|k: int|
                    0 <= k < j ==> (if descending {
                        (#[trigger] work@[k]).move_worth <= work@[best as int].move_worth
                    } else {
                        work@[k].move_worth >= work@[best as int].move_worth
                    }),
            decreases n - j,
        {
            let better = if descending {
                work[j].get_move_worth() > work[best].get_move_worth()
            } else {
                work[j].get_move_worth() < work[best].get_move_worth()
            };
            if better {
                best = j;
            }
            j = j + 1;
        }
        let ghost pre_moves = moves@;
        let ghost pre_work = work@;
        let m = work.remove(best);
        moves.push(m);
        proof {
            pre_work.to_multiset_ensures();
            vstd::seq_lib::to_multiset_build(pre_moves, m);
            assert(work@ == pre_work.remove(best as int));
            assert(pre_work.remove(best as int).to_multiset() =~= pre_work.to_multiset().remove(
                pre_work[best as int],
            ));
            assert(work@.to_multiset() =~= pre_work.to_multiset().remove(m));
            assert(moves@.to_multiset() =~= pre_moves.to_multiset().insert(m));
            assert(pre_work.to_multiset().count(m) > 0);
            assert(moves@.to_multiset().add(work@.to_multiset()) =~= pre_moves.to_multiset().add(
                pre_work.to_multiset(),
            ));
            lemma_erased_remove(pre_work, best as int);
            lemma_erased_push(pre_moves, m);
            spec_erased(pre_work).to_multiset_ensures();
            vstd::seq_lib::to_multiset_build(spec_erased(pre_moves), spec_erase_worth(m));
            assert(spec_erased(pre_work)[best as int] == spec_erase_worth(m));
            assert(spec_erased(pre_work).remove(best as int).to_multiset() =~= spec_erased(
                pre_work,
            ).to_multiset().remove(spec_erased(pre_work)[best as int]));
            assert(spec_erased(work@).to_multiset() =~= spec_erased(pre_work).to_multiset().remove(
                spec_erase_worth(m),
            ));
            assert(spec_erased(moves@).to_multiset() =~= spec_erased(
                pre_moves,
            ).to_multiset().insert(spec_erase_worth(m)));
            assert(spec_erased(pre_work).to_multiset().count(spec_erase_worth(m)) > 0);
            assert(spec_erased(moves@).to_multiset().add(spec_erased(work@).to_multiset())
                =~= spec_erased(pre_moves).to_multiset().add(spec_erased(pre_work).to_multiset()));
            assert(forall|k: int|
                0 <= k < work@.len() ==> (if descending {
                    (#[trigger] work@[k]).move_worth <= m.move_worth
                } else {
                    work@[k].move_worth >= m.move_worth
                }));
        }
    }
    proof {
        moves@.to_multiset_ensures();
        orig.to_multiset_ensures();
        assert(moves@.to_multiset() =~= moves@.to_multiset().add(work@.to_multiset()));
        assert(spec_erased(work@) =~= Seq::<PieceMove>::empty());
        assert(spec_erased(moves@).to_multiset() =~= spec_erased(moves@).to_multiset().add(
            spec_erased(work@).to_multiset(),
        ));
        assert(moves@.to_multiset().len() == orig.to_multiset().len());
        assert forall|j: int| 0 <= j < moves@.len() implies orig.contains(
            #[trigger] moves@[j],
        ) by {
            assert(moves@.contains(moves@[j]));
            assert(moves@.to_multiset().count(moves@[j]) > 0);
            assert(orig.to_multiset().count(moves@[j]) > 0);
        }
        assert forall|j: int| 0 <= j < orig.len() implies moves@.contains(
            #[trigger] orig[j],
        ) by {
            assert(orig.contains(orig[j]));
            assert(orig.to_multiset().count(orig[j]) > 0);
            assert(moves@.to_multiset().count(orig[j]) > 0);
        }
    }
}

/// Score and sort the side to move's legal moves: capture gains, the
/// promotion choice, a penalty for stepping onto a covered square, and
/// the destination's piece-square bonus; best first for the maximizer,
/// worst first for the minimizer.
#[verifier::rlimit(100)]
pub fn get_sorted_moves(board: &Board, max: bool, pieces: &Vec<BoardPiece>) -> (r: Vec<PieceMove>)
    requires
        board.state.wf(),
        pieces@.len() <= 64,
    ensures
        spec_sorted_by_worth(r@, max),
        forall|j: int|
            0 <= j < r@.len() ==> spec_from_piece_moves(
                pieces@,
                #[trigger] r@[j],
                board.state.white_move,
            ),
        r@.len() == 0 ==> (forall|i: int|
            0 <= i < pieces@.len() && (#[trigger] pieces@[i]).white == board.state.white_move
                ==> pieces@[i].moves@.len() == 0),
        spec_expansion_complete(pieces@, r@, board.state.white_move),
        spec_erased(r@).to_multiset() == spec_expanded_moves_of(
            pieces@,
            board.state.white_move,
            pieces@.len() as int,
        ).to_multiset(),
        forall|j: int|
            0 <= j < r@.len() ==> ((#[trigger] r@[j]).is_promotion
                ==> crate::pieces::spec_promotion_options(
                spec_is_white(r@[j].piece_value),
            ).contains(r@[j].promotion_type)),
        forall|j: int|
            0 <= j < r@.len() ==> (#[trigger] r@[j]).move_worth == spec_clamp_worth(
                spec_move_worth(board.state, pieces@, r@[j]),
            ),
{
    let (mut moves, attacked_positions) = get_friendly_moves_and_attacked_positions(
        pieces,
        board,
    );
    let ghost friendly = moves@;
    if moves.len() == 0 {
        proof {
            assert(spec_erased(moves@) == spec_expanded_moves_of(
                pieces@,
                board.state.white_move,
                pieces@.len() as int,
            ));
        }
        return moves;
    }
    let n0 = moves.len();
    let board_state = board.get_state_reference();
    let end_game = is_end_game(pieces);
    let mut i: usize = 0;
    while i < moves.len()
        invariant
            i <= moves@.len(),
            moves@.len() == n0,
            n0 > 0,
            friendly.len() == n0,
            board.state.wf(),
            board_state == &board.state,
            forall|j: int|
                0 <= j < moves@.len() ==> spec_same_except_worth(
                    #[trigger] moves@[j],
                    friendly[j],
                ),
            spec_erased(moves@) == spec_erased(friendly),
            forall|j: int|
                0 <= j < moves@.len() ==> spec_from_piece_moves(
                    pieces@,
                    #[trigger] moves@[j],
                    board.state.white_move,
                ),
            end_game == spec_is_end_game(pieces@),
            forall|j: int|
                0 <= j < attacked_positions@.len() ==> spec_attacked_position(
                    pieces@,
                    #[trigger] attacked_positions@[j],
                    board.state.white_move,
                ),
            forall|ii: int, j: int|
                0 <= ii < pieces@.len() && (#[trigger] pieces@[ii]).white
                    != board.state.white_move && 0 <= j < pieces@[ii].moves@.len()
                    ==> attacked_positions@.contains(
                    (#[trigger] pieces@[ii].moves@[j]).to_position,
                ),
            forall|j: int|
                0 <= j < i ==> (#[trigger] moves@[j]).move_worth == spec_clamp_worth(
                    spec_move_worth(board.state, pieces@, moves@[j]),
                ),
            forall|j: int|
                0 <= j < moves@.len() ==> ((#[trigger] moves@[j]).is_promotion
                    ==> crate::pieces::spec_promotion_options(
                    spec_is_white(moves@[j].piece_value),
                ).contains(moves@[j].promotion_type)),
        decreases moves@.len() - i,
    {
        let m = moves[i];
        let moving_piece = board_state.get_piece(m.get_from_position());
        let target_piece = board_state.get_piece(m.get_to_position());
        let mut worth: i64 = 0;
        if m.is_capture() {
            worth = (get_piece_worth(target_piece) as i64) - (get_piece_worth(moving_piece) as i64);
            if get_piece_type(target_piece) == PieceType::King {
                worth = worth + (KING_WORTH as i64);
            }
        }
        if m.is_promotion() {
            worth = worth + (get_piece_worth(m.get_promotion_value()) as i64);
        }
        if contains_position(&attacked_positions, m.get_to_position()) {
            worth = worth + (get_piece_worth(moving_piece) as i64);
        }
        if 0 <= m.get_to_position() && m.get_to_position() < 64 {
            worth = worth + (get_pst_value(
                m.get_to_position(),
                m.get_piece_value(),
                end_game,
                is_white_piece(m.get_piece_value()),
            ) as i64);
        }
        proof {
            if spec_attacked_position(pieces@, m.to_position, board.state.white_move) {
                let (wi, wj): (int, int) = choose|wi: int, wj: int|
                    0 <= wi < pieces@.len() && (#[trigger] pieces@[wi]).white
                        != board.state.white_move && 0 <= wj < pieces@[wi].moves@.len() && (
                    #[trigger] pieces@[wi].moves@[wj]).to_position == m.to_position;
                assert(attacked_positions@.contains(m.to_position));
            }
        }
        let clamped: i32 = if worth > 2000000 {
            2000000
        } else if worth < -2000000 {
            -2000000
        } else {
            worth as i32
        };
        let updated = PieceMove { move_worth: clamped, ..m };
        let ghost pre_update = moves@;
        moves[i] = updated;
        proof {
            assert(spec_erased(moves@) =~= spec_erased(pre_update));
            assert(updated.move_worth == spec_clamp_worth(
                spec_move_worth(board.state, pieces@, updated),
            ));
        }
        proof {
            let (wi, wj): (int, int) = choose|wi: int, wj: int|
                0 <= wi < pieces@.len() && (#[trigger] pieces@[wi]).white
                    == board.state.white_move && 0 <= wj < pieces@[wi].moves@.len()
                    && spec_same_except_worth_promo(#[trigger] pieces@[wi].moves@[wj], m);
            assert(spec_same_except_worth_promo(pieces@[wi].moves@[wj], updated));
        }
        i = i + 1;
    }
    let ghost scored = moves@;
    sort_moves_by_worth(&mut moves, max);
    proof {
        assert forall|j: int| 0 <= j < moves@.len() implies (#[trigger] moves@[j]).move_worth
            == spec_clamp_worth(spec_move_worth(board.state, pieces@, moves@[j])) && (moves@[
            j
        ].is_promotion ==> crate::pieces::spec_promotion_options(
            spec_is_white(moves@[j].piece_value),
        ).contains(moves@[j].promotion_type)) by {
            let t = choose|t: int| 0 <= t < scored.len() && scored[t] == moves@[j];
        }
        assert forall|m: PieceMove|
            spec_contains_up_to_worth(friendly, m) implies spec_contains_up_to_worth(
            moves@,
            m,
        ) by {
            let k = choose|k: int|
                0 <= k < friendly.len() && spec_same_except_worth(#[trigger] friendly[k], m);
            assert(spec_same_except_worth(scored[k], m));
            let t = choose|t: int| 0 <= t < moves@.len() && moves@[t] == scored[k];
            assert(spec_same_except_worth(moves@[t], m));
        }
        assert forall|ii: int, j: int|
            0 <= ii < pieces@.len() && (#[trigger] pieces@[ii]).white == board.state.white_move
                && 0 <= j < pieces@[ii].moves@.len() implies spec_move_expanded_in(
            moves@,
            #[trigger] pieces@[ii].moves@[j],
        ) by {
            let m = pieces@[ii].moves@[j];
            assert(spec_move_expanded_in(friendly, m));
            if m.is_promotion {
                assert forall|o: int|
                    0 <= o < crate::pieces::spec_promotion_options(
                        spec_is_white(m.piece_value),
                    ).len() implies spec_contains_up_to_worth(
                    moves@,
                    (PieceMove {
                        promotion_type: crate::pieces::spec_promotion_options(
                            spec_is_white(m.piece_value),
                        )[o],
                        ..m
                    }),
                ) by {
                    assert(spec_contains_up_to_worth(
                        friendly,
                        (PieceMove {
                            promotion_type: crate::pieces::spec_promotion_options(
                                spec_is_white(m.piece_value),
                            )[o],
                            ..m
                        }),
                    ));
                }
            }
        }
    }
    moves
}

/// Whether a square stands in the attacked list.
fn contains_position(positions: &Vec<i8>, p: i8) -> (r: bool)
    ensures
        r == positions@.contains(p),
{
    let mut i: usize = 0;
    while i < positions.len()
        invariant
            i <= positions@.len(),
            forall|j: int| 0 <= j < i ==> positions@[j] != p,
        decreases positions@.len() - i,
    {
        if positions[i] == p {
            return true;
        }
        i = i + 1;
    }
    false
}

} // verus!
