//! Pseudo-legal move generation per piece type, castling, and the
//! legal-move filter that makes each candidate on the board and rejects
//! it when the mover's king would stand attacked.

use vstd::prelude::*;

use crate::board::Board;
use crate::board_piece::BoardPiece;
use crate::board_state::{
    BoardState, BLACK_KING_ROOK_POS, BLACK_PAWN_VALUE, BLACK_QUEEN_ROOK_POS, WHITE_KING_ROOK_POS,
    WHITE_PAWN_VALUE, WHITE_QUEEN_ROOK_POS,
};
use crate::move_generator_helper::{
    get_adjacent_position, get_knight_move, is_king_in_check, is_path_clear, is_pawn_first_move,
    position_is_not_attacked, spec_attacks_to, spec_is_king_in_check, spec_is_pawn_first_move,
    spec_knight_move, spec_path_clear,
};
use crate::moves::PieceMove;
use crate::pieces::{
    get_piece_type, is_same_color, is_white_piece, spec_is_white, spec_piece_type, PieceType,
    EMPTY_PIECE,
};

verus! {

#[derive(Debug, PartialEq, Eq, Structural, Clone, Copy)]
pub enum SquareOffset {
    LineBelow,
    LineAbove,
    TopRight,
    TopLeft,
    BottomRight,
    BottomLeft,
    Left,
    Right,
}

impl SquareOffset {
    /// The square-index step one move in this direction takes.
    pub open spec fn spec_value(self) -> int {
        match self {
            SquareOffset::LineBelow => 8,
            SquareOffset::LineAbove => -8,
            SquareOffset::TopRight => -7,
            SquareOffset::TopLeft => -9,
            SquareOffset::BottomRight => 9,
            SquareOffset::BottomLeft => 7,
            SquareOffset::Left => -1,
            SquareOffset::Right => 1,
        }
    }

    pub fn value(&self) -> (v: i8)
        ensures
            v == self.spec_value(),
    {
        match self {
            SquareOffset::LineBelow => 8,
            SquareOffset::LineAbove => -8,
            SquareOffset::TopRight => -7,
            SquareOffset::TopLeft => -9,
            SquareOffset::BottomRight => 9,
            SquareOffset::BottomLeft => 7,
            SquareOffset::Left => -1,
            SquareOffset::Right => 1,
        }
    }

    /// Directions that step towards the right edge of the board.
    pub open spec fn spec_righty(self) -> bool {
        self == SquareOffset::Right || self == SquareOffset::TopRight || self
            == SquareOffset::BottomRight
    }

    /// Directions that step towards the left edge of the board.
    pub open spec fn spec_lefty(self) -> bool {
        self == SquareOffset::Left || self == SquareOffset::TopLeft || self
            == SquareOffset::BottomLeft
    }

    /// Directions that stay on one file.
    pub open spec fn spec_vertical(self) -> bool {
        self == SquareOffset::LineAbove || self == SquareOffset::LineBelow
    }
}

/// An ordinary generated move: origin, destination, the moving piece,
/// and whether something is captured.
pub open spec fn spec_move(s: BoardState, from: int, to: int, capture: bool) -> PieceMove {
    PieceMove {
        from_position: from as i8,
        is_capture: capture,
        is_en_passant: false,
        is_promotion: false,
        move_worth: 0,
        piece_value: s.squares@[from],
        promotion_type: EMPTY_PIECE,
        to_position: to as i8,
    }
}

/// A generated pawn move, possibly flagged as promotion or en passant.
pub open spec fn spec_pawn_move(
    s: BoardState,
    from: int,
    to: int,
    capture: bool,
    promo: bool,
    ep: bool,
) -> PieceMove {
    PieceMove {
        from_position: from as i8,
        is_capture: capture,
        is_en_passant: ep,
        is_promotion: promo,
        move_worth: 0,
        piece_value: s.squares@[from],
        promotion_type: EMPTY_PIECE,
        to_position: to as i8,
    }
}

/// The knight's candidate destination and rank distance, in generation
/// order.
pub open spec fn spec_knight_candidate(pos: int, j: int) -> (int, int) {
    if j == 0 {
        (pos - 17, 2int)
    } else if j == 1 {
        (pos - 15, 2int)
    } else if j == 2 {
        (pos - 10, 1int)
    } else if j == 3 {
        (pos - 6, 1int)
    } else if j == 4 {
        (pos + 6, 1int)
    } else if j == 5 {
        (pos + 10, 1int)
    } else if j == 6 {
        (pos + 15, 2int)
    } else {
        (pos + 17, 2int)
    }
}

/// The moves one knight candidate contributes: none when it wraps or
/// leaves the board or lands on a friend.
pub open spec fn spec_knight_step(s: BoardState, pos: int, cand: int, dist: int) -> Seq<
    PieceMove,
> {
    let np = spec_knight_move(dist, cand, pos);
    if 0 <= np < 64 {
        let cur = s.squares@[np];
        let same = spec_is_white(s.squares@[pos]) == spec_is_white(cur);
        if cur == EMPTY_PIECE || !same {
            seq![spec_move(s, pos, np, cur != EMPTY_PIECE && !same)]
        } else {
            Seq::<PieceMove>::empty()
        }
    } else {
        Seq::<PieceMove>::empty()
    }
}

pub open spec fn spec_knight_partial(s: BoardState, pos: int, j: int) -> Seq<PieceMove>
    decreases j,
{
    if j <= 0 {
        Seq::<PieceMove>::empty()
    } else {
        spec_knight_partial(s, pos, j - 1) + spec_knight_step(
            s,
            pos,
            spec_knight_candidate(pos, j - 1).0,
            spec_knight_candidate(pos, j - 1).1,
        )
    }
}

/// All moves of a knight standing on `pos`.
pub open spec fn spec_knight_moves(s: BoardState, pos: int) -> Seq<PieceMove> {
    spec_knight_partial(s, pos, 8)
}

/// The tail of one sliding ray, starting at step `i` of at most seven:
/// empty squares are passed and collected, the first enemy piece is
/// captured and stops the ray, a friend or an edge stops it cold.
pub open spec fn spec_slide_from(s: BoardState, pos: int, offset: SquareOffset, i: int) -> Seq<
    PieceMove,
>
    decreases 7 - i,
{
    if i >= 7 {
        Seq::<PieceMove>::empty()
    } else if offset.spec_righty() && (pos + 1) % 8 == 0 {
        Seq::<PieceMove>::empty()
    } else if offset.spec_lefty() && pos % 8 == 0 {
        Seq::<PieceMove>::empty()
    } else {
        let np = pos + (i + 1) * offset.spec_value();
        if !(0 <= np < 64) {
            Seq::<PieceMove>::empty()
        } else {
            let ex = s.squares@[np];
            if ex == EMPTY_PIECE {
                seq![spec_move(s, pos, np, false)] + (if offset.spec_vertical() {
                    spec_slide_from(s, pos, offset, i + 1)
                } else if (np + (if offset.spec_righty() {
                    1int
                } else {
                    0int
                })) % 8 == 0 {
                    Seq::<PieceMove>::empty()
                } else {
                    spec_slide_from(s, pos, offset, i + 1)
                })
            } else if spec_is_white(s.squares@[pos]) != spec_is_white(ex) {
                seq![spec_move(s, pos, np, true)]
            } else {
                Seq::<PieceMove>::empty()
            }
        }
    }
}

/// All moves of a bishop standing on `pos`.
pub open spec fn spec_bishop_moves(s: BoardState, pos: int) -> Seq<PieceMove> {
    spec_slide_from(s, pos, SquareOffset::TopLeft, 0) + spec_slide_from(
        s,
        pos,
        SquareOffset::TopRight,
        0,
    ) + spec_slide_from(s, pos, SquareOffset::BottomLeft, 0) + spec_slide_from(
        s,
        pos,
        SquareOffset::BottomRight,
        0,
    )
}

/// All moves of a rook standing on `pos`.
pub open spec fn spec_rook_moves(s: BoardState, pos: int) -> Seq<PieceMove> {
    spec_slide_from(s, pos, SquareOffset::LineAbove, 0) + spec_slide_from(
        s,
        pos,
        SquareOffset::Left,
        0,
    ) + spec_slide_from(s, pos, SquareOffset::Right, 0) + spec_slide_from(
        s,
        pos,
        SquareOffset::LineBelow,
        0,
    )
}

/// All moves of a queen standing on `pos`.
pub open spec fn spec_queen_moves(s: BoardState, pos: int) -> Seq<PieceMove> {
    spec_bishop_moves(s, pos) + spec_rook_moves(s, pos)
}

/// The pawn's pushes: one step to an empty square, two from the home
/// rank over empty squares, with the promotion flag on a push to the
/// last rank.
pub open spec fn spec_pawn_regular(s: BoardState, pos: int, white: bool) -> Seq<PieceMove> {
    let off: int = if white {
        -8
    } else {
        8
    };
    let next = pos + off;
    if s.squares@[next] != EMPTY_PIECE {
        Seq::<PieceMove>::empty()
    } else {
        if spec_is_pawn_first_move(white, pos as i8) {
            seq![spec_pawn_move(s, pos, next, false, false, false)] + (if s.squares@[pos + 2 * off]
                == EMPTY_PIECE {
                seq![spec_pawn_move(s, pos, pos + 2 * off, false, false, false)]
            } else {
                Seq::<PieceMove>::empty()
            })
        } else {
            seq![
                spec_pawn_move(
                    s,
                    pos,
                    next,
                    false,
                    (0 <= next <= 7) || (56 <= next <= 63),
                    false,
                ),
            ]
        }
    }
}

/// The pawn's diagonal capture on one side, flagged as promotion on the
/// last rank.
pub open spec fn spec_pawn_capture(s: BoardState, pos: int, white: bool, left: bool) -> Seq<
    PieceMove,
> {
    let off: int = if white {
        -8
    } else {
        8
    };
    let next = pos + off;
    if (left && pos % 8 == 0) || (!left && (pos + 1) % 8 == 0) {
        Seq::<PieceMove>::empty()
    } else {
        let diag = next - (if left {
            1int
        } else {
            -1int
        });
        if 0 <= diag < 64 && s.squares@[diag] != EMPTY_PIECE && spec_is_white(s.squares@[diag])
            != white {
            seq![
                spec_pawn_move(s, pos, diag, true, (0 <= diag <= 7) || (56 <= diag <= 63), false),
            ]
        } else {
            Seq::<PieceMove>::empty()
        }
    }
}

/// The pawn's en-passant capture, when the opponent's target square sits
/// beside it.
pub open spec fn spec_pawn_ep(s: BoardState, pos: int, white: bool) -> Seq<PieceMove> {
    let off: int = if white {
        -8
    } else {
        8
    };
    let ep: int = if white {
        s.black_en_passant as int
    } else {
        s.white_en_passant as int
    };
    if ep == -1 {
        Seq::<PieceMove>::empty()
    } else {
        let left_sq: int = if pos % 8 != 0 {
            pos - 1
        } else {
            -1
        };
        let right_sq: int = if (pos + 1) % 8 != 0 {
            pos + 1
        } else {
            -1
        };
        let target: int = if white {
            ep + 8
        } else {
            ep - 8
        };
        if left_sq == target {
            seq![spec_pawn_move(s, pos, left_sq + off, true, false, true)]
        } else if right_sq == target {
            seq![spec_pawn_move(s, pos, right_sq + off, true, false, true)]
        } else {
            Seq::<PieceMove>::empty()
        }
    }
}

/// All moves of a pawn standing on `pos`: pushes, diagonal captures,
/// then en passant; a pawn with no rank ahead of it has none.
pub open spec fn spec_pawn_moves(s: BoardState, pos: int) -> Seq<PieceMove> {
    let white = spec_is_white(s.squares@[pos]);
    let off: int = if white {
        -8
    } else {
        8
    };
    let next = pos + off;
    if !(0 <= next < 64) {
        Seq::<PieceMove>::empty()
    } else {
        spec_pawn_regular(s, pos, white) + spec_pawn_capture(s, pos, white, true)
            + spec_pawn_capture(s, pos, white, false) + spec_pawn_ep(s, pos, white)
    }
}

/// The pseudo-legal moves of the piece standing on `position`, by type;
/// king moves are produced separately.
pub open spec fn spec_piece_moves(s: BoardState, piece_type: PieceType, position: int) -> Seq<
    PieceMove,
> {
    match piece_type {
        PieceType::Bishop => spec_bishop_moves(s, position),
        PieceType::Knight => spec_knight_moves(s, position),
        PieceType::Pawn => spec_pawn_moves(s, position),
        PieceType::Queen => spec_queen_moves(s, position),
        PieceType::Rook => spec_rook_moves(s, position),
        PieceType::King => Seq::<PieceMove>::empty(),
        PieceType::Empty => Seq::<PieceMove>::empty(),
    }
}

/// The signed square-index offset of `steps` moves in a direction.
fn ray_delta(offset: SquareOffset, steps: i8) -> (d: i8)
    requires
        1 <= steps <= 7,
    ensures
        d == steps * offset.spec_value(),
        -63 <= d <= 63,
{
    match offset {
        SquareOffset::LineBelow => steps * 8,
        SquareOffset::LineAbove => 0 - steps * 8,
        SquareOffset::TopRight => 0 - steps * 7,
        SquareOffset::TopLeft => 0 - steps * 9,
        SquareOffset::BottomRight => steps * 9,
        SquareOffset::BottomLeft => steps * 7,
        SquareOffset::Left => 0 - steps,
        SquareOffset::Right => steps,
    }
}

/// One sliding ray, appended to `moves`, continuing from step `i`.
fn slide_ray(
    state: &BoardState,
    piece: i8,
    position: i8,
    offset: SquareOffset,
    i: u8,
    moves: &mut Vec<PieceMove>,
)
    requires
        state.wf(),
        0 <= position < 64,
        i <= 7,
        piece == state.squares@[position as int],
    ensures
        final(moves)@ == old(moves)@ + spec_slide_from(*state, position as int, offset, i as int),
    decreases 7 - i,
{
    proof {
        assert(moves@ + Seq::<PieceMove>::empty() =~= moves@);
    }
    if i >= 7 {
        return ;
    }
    let righty = matches!(offset, SquareOffset::Right | SquareOffset::TopRight | SquareOffset::BottomRight);
    let lefty = matches!(offset, SquareOffset::Left | SquareOffset::TopLeft | SquareOffset::BottomLeft);
    let vertical = matches!(offset, SquareOffset::LineAbove | SquareOffset::LineBelow);
    if righty && (position + 1) % 8 == 0 {
        return ;
    }
    if lefty && position % 8 == 0 {
        return ;
    }
    let new_position = position + ray_delta(offset, i as i8 + 1);
    if !(0 <= new_position && new_position < 64) {
        return ;
    }
    let existing_piece = state.squares[new_position as usize];
    if existing_piece == EMPTY_PIECE {
        let m = PieceMove::new(position, piece, new_position);
        moves.push(m);
        proof {
            assert(moves@ =~= old(moves)@ + seq![
                spec_move(*state, position as int, new_position as int, false),
            ]);
        }
        if vertical {
            slide_ray(state, piece, position, offset, i + 1, moves);
        } else if (new_position + if righty {
            1
        } else {
            0
        }) % 8 == 0 {
            proof {
                assert(moves@ =~= old(moves)@ + spec_slide_from(
                    *state,
                    position as int,
                    offset,
                    i as int,
                ));
            }
        } else {
            slide_ray(state, piece, position, offset, i + 1, moves);
        }
        proof {
            assert(moves@ =~= old(moves)@ + spec_slide_from(
                *state,
                position as int,
                offset,
                i as int,
            ));
        }
    } else if !is_same_color(piece, existing_piece) {
        let mut m = PieceMove::new(position, piece, new_position);
        m.set_is_capture(true);
        moves.push(m);
        proof {
            assert(moves@ =~= old(moves)@ + spec_slide_from(
                *state,
                position as int,
                offset,
                i as int,
            ));
        }
    }
}

/// One knight candidate, appended to `moves` when it stays on the board
/// and does not land on a friend.
fn add_knight_move(
    state: &BoardState,
    moves: &mut Vec<PieceMove>,
    position: i8,
    lines_apart: i8,
    candidate: i8,
)
    requires
        state.wf(),
        0 <= position < 64,
        -24 <= candidate <= 80,
    ensures
        final(moves)@ == old(moves)@ + spec_knight_step(
            *state,
            position as int,
            candidate as int,
            lines_apart as int,
        ),
{
    let new_position = get_knight_move(lines_apart, candidate, position);
    if !(0 <= new_position && new_position < 64) {
        proof {
            assert(moves@ =~= old(moves)@ + Seq::<PieceMove>::empty());
        }
        return ;
    }
    let knight_piece = state.squares[position as usize];
    let current_piece = state.squares[new_position as usize];
    let same_color = is_same_color(knight_piece, current_piece);
    if current_piece == EMPTY_PIECE || !same_color {
        let mut m = PieceMove::new(position, knight_piece, new_position);
        m.set_is_capture(current_piece != EMPTY_PIECE && !same_color);
        moves.push(m);
        proof {
            assert(moves@ =~= old(moves)@ + spec_knight_step(
                *state,
                position as int,
                candidate as int,
                lines_apart as int,
            ));
        }
    } else {
        proof {
            assert(moves@ =~= old(moves)@ + Seq::<PieceMove>::empty());
        }
    }
}

/// All knight moves from `position`, in candidate order.
pub fn knight_moves_of(state: &BoardState, position: i8) -> (moves: Vec<PieceMove>)
    requires
        state.wf(),
        0 <= position < 64,
    ensures
        moves@ == spec_knight_moves(*state, position as int),
{
    let mut moves: Vec<PieceMove> = Vec::new();
    add_knight_move(state, &mut moves, position, 2, position - 17);
    add_knight_move(state, &mut moves, position, 2, position - 15);
    add_knight_move(state, &mut moves, position, 1, position - 10);
    add_knight_move(state, &mut moves, position, 1, position - 6);
    add_knight_move(state, &mut moves, position, 1, position + 6);
    add_knight_move(state, &mut moves, position, 1, position + 10);
    add_knight_move(state, &mut moves, position, 2, position + 15);
    add_knight_move(state, &mut moves, position, 2, position + 17);
    proof {
        reveal_with_fuel(spec_knight_partial, 9);
        assert(moves@ =~= spec_knight_moves(*state, position as int));
    }
    moves
}

/// All bishop moves from `position`: the four diagonal rays.
pub fn bishop_moves_of(state: &BoardState, position: i8) -> (moves: Vec<PieceMove>)
    requires
        state.wf(),
        0 <= position < 64,
    ensures
        moves@ == spec_bishop_moves(*state, position as int),
{
    let piece = state.squares[position as usize];
    let mut moves: Vec<PieceMove> = Vec::new();
    slide_ray(state, piece, position, SquareOffset::TopLeft, 0, &mut moves);
    slide_ray(state, piece, position, SquareOffset::TopRight, 0, &mut moves);
    slide_ray(state, piece, position, SquareOffset::BottomLeft, 0, &mut moves);
    slide_ray(state, piece, position, SquareOffset::BottomRight, 0, &mut moves);
    proof {
        assert(moves@ =~= spec_bishop_moves(*state, position as int));
    }
    moves
}

/// All rook moves from `position`: the four orthogonal rays.
pub fn rook_moves_of(state: &BoardState, position: i8) -> (moves: Vec<PieceMove>)
    requires
        state.wf(),
        0 <= position < 64,
    ensures
        moves@ == spec_rook_moves(*state, position as int),
{
    let piece = state.squares[position as usize];
    let mut moves: Vec<PieceMove> = Vec::new();
    slide_ray(state, piece, position, SquareOffset::LineAbove, 0, &mut moves);
    slide_ray(state, piece, position, SquareOffset::Left, 0, &mut moves);
    slide_ray(state, piece, position, SquareOffset::Right, 0, &mut moves);
    slide_ray(state, piece, position, SquareOffset::LineBelow, 0, &mut moves);
    proof {
        assert(moves@ =~= spec_rook_moves(*state, position as int));
    }
    moves
}

/// All queen moves from `position`: bishop rays then rook rays.
pub fn queen_moves_of(state: &BoardState, position: i8) -> (moves: Vec<PieceMove>)
    requires
        state.wf(),
        0 <= position < 64,
    ensures
        moves@ == spec_queen_moves(*state, position as int),
{
    let mut moves = bishop_moves_of(state, position);
    let mut rooks = rook_moves_of(state, position);
    let mut i: usize = 0;
    while i < rooks.len()
        invariant
            i <= rooks@.len(),
            moves@ == spec_bishop_moves(*state, position as int) + rooks@.subrange(0, i as int),
        decreases rooks@.len() - i,
    {
        moves.push(rooks[i]);
        i = i + 1;
    }
    proof {
        assert(moves@ =~= spec_queen_moves(*state, position as int));
    }
    moves
}

/// All pawn moves from `position`.
pub fn pawn_moves_of(state: &BoardState, position: i8) -> (moves: Vec<PieceMove>)
    requires
        state.wf(),
        0 <= position < 64,
    ensures
        moves@ == spec_pawn_moves(*state, position as int),
{
    let pawn_value = state.squares[position as usize];
    let white_piece = is_white_piece(pawn_value);
    let offset: i8 = if white_piece {
        -8
    } else {
        8
    };
    let next_line_position = position + offset;
    if !(0 <= next_line_position && next_line_position < 64) {
        return Vec::new();
    }
    let mut moves: Vec<PieceMove> = Vec::new();
    pawn_regular_moves(state, &mut moves, next_line_position, offset, pawn_value, position, white_piece);
    pawn_capture_move(state, &mut moves, next_line_position, pawn_value, position, white_piece, true);
    pawn_capture_move(state, &mut moves, next_line_position, pawn_value, position, white_piece, false);
    pawn_ep_moves(state, &mut moves, offset, pawn_value, position, white_piece);
    proof {
        assert(moves@ =~= spec_pawn_moves(*state, position as int));
    }
    moves
}

/// The pawn's one- and two-square pushes, appended to `moves`.
fn pawn_regular_moves(
    state: &BoardState,
    moves: &mut Vec<PieceMove>,
    next_line_position: i8,
    offset: i8,
    pawn_value: i8,
    position: i8,
    white_piece: bool,
)
    requires
        state.wf(),
        0 <= position < 64,
        0 <= next_line_position < 64,
        offset == (if white_piece { -8i8 } else { 8i8 }),
        next_line_position == position + offset,
        pawn_value == state.squares@[position as int],
    ensures
        final(moves)@ == old(moves)@ + spec_pawn_regular(*state, position as int, white_piece),
{
    let existing_piece = state.squares[next_line_position as usize];
    if existing_piece != EMPTY_PIECE {
        proof {
            assert(moves@ =~= old(moves)@ + Seq::<PieceMove>::empty());
        }
        return ;
    }
    if is_pawn_first_move(white_piece, position) {
        let m = PieceMove::new(position, pawn_value, next_line_position);
        moves.push(m);
        let two_lines_position = position + offset * 2;
        let second = state.squares[two_lines_position as usize];
        if second == EMPTY_PIECE {
            let m2 = PieceMove::new(position, pawn_value, two_lines_position);
            moves.push(m2);
        }
    } else {
        let mut m = PieceMove::new(position, pawn_value, next_line_position);
        if (0 <= next_line_position && next_line_position <= 7) || (56 <= next_line_position
            && next_line_position <= 63) {
            m.set_is_promotion(true);
        }
        moves.push(m);
    }
    proof {
        assert(moves@ =~= old(moves)@ + spec_pawn_regular(*state, position as int, white_piece));
    }
}

/// The pawn's capture towards one side, appended to `moves`.
fn pawn_capture_move(
    state: &BoardState,
    moves: &mut Vec<PieceMove>,
    next_line_position: i8,
    pawn_value: i8,
    position: i8,
    white_piece: bool,
    left_diagonal: bool,
)
    requires
        state.wf(),
        0 <= position < 64,
        0 <= next_line_position < 64,
        next_line_position == position + (if white_piece { -8int } else { 8int }),
        pawn_value == state.squares@[position as int],
        white_piece == spec_is_white(pawn_value),
    ensures
        final(moves)@ == old(moves)@ + spec_pawn_capture(
            *state,
            position as int,
            white_piece,
            left_diagonal,
        ),
{
    if (left_diagonal && position % 8 == 0) || (!left_diagonal && (position + 1) % 8 == 0) {
        proof {
            assert(moves@ =~= old(moves)@ + Seq::<PieceMove>::empty());
        }
        return ;
    }
    let diagonal = next_line_position - (if left_diagonal {
        1
    } else {
        -1
    });
    if !(0 <= diagonal && diagonal < 64) {
        proof {
            assert(moves@ =~= old(moves)@ + Seq::<PieceMove>::empty());
        }
        return ;
    }
    let existing_piece = state.squares[diagonal as usize];
    if existing_piece != EMPTY_PIECE && is_white_piece(existing_piece) != white_piece {
        let mut m = PieceMove::new(position, pawn_value, diagonal);
        m.set_is_capture(true);
        if (0 <= diagonal && diagonal <= 7) || (56 <= diagonal && diagonal <= 63) {
            m.set_is_promotion(true);
        }
        moves.push(m);
    }
    proof {
        assert(moves@ =~= old(moves)@ + spec_pawn_capture(
            *state,
            position as int,
            white_piece,
            left_diagonal,
        ));
    }
}

/// The pawn's en-passant capture, appended to `moves`.
fn pawn_ep_moves(
    state: &BoardState,
    moves: &mut Vec<PieceMove>,
    offset: i8,
    pawn_value: i8,
    position: i8,
    white_piece: bool,
)
    requires
        state.wf(),
        0 <= position < 64,
        offset == (if white_piece { -8i8 } else { 8i8 }),
        pawn_value == state.squares@[position as int],
    ensures
        final(moves)@ == old(moves)@ + spec_pawn_ep(*state, position as int, white_piece),
{
    let en_passant = if white_piece {
        state.get_black_en_passant()
    } else {
        state.get_white_en_passant()
    };
    if en_passant == -1 {
        proof {
            assert(moves@ =~= old(moves)@ + Seq::<PieceMove>::empty());
        }
        return ;
    }
    let left_square: i8 = if position % 8 != 0 {
        position - 1
    } else {
        -1
    };
    let right_square: i8 = if (position + 1) % 8 != 0 {
        position + 1
    } else {
        -1
    };
    let en_passant_target = if white_piece {
        en_passant + 8
    } else {
        en_passant - 8
    };
    let side_square: i8;
    if left_square == en_passant_target {
        side_square = left_square;
    } else if right_square == en_passant_target {
        side_square = right_square;
    } else {
        proof {
            assert(moves@ =~= old(moves)@ + Seq::<PieceMove>::empty());
        }
        return ;
    }
    let mut m = PieceMove::new(position, pawn_value, side_square + offset);
    m.set_is_capture(true);
    m.set_is_en_passant(true);
    moves.push(m);
    proof {
        assert(moves@ =~= old(moves)@ + spec_pawn_ep(*state, position as int, white_piece));
    }
}

/// The pseudo-legal moves of the piece on `position`, by piece type.
pub fn piece_moves_of(state: &BoardState, piece_type: PieceType, position: i8) -> (moves: Vec<
    PieceMove,
>)
    requires
        state.wf(),
        0 <= position < 64,
    ensures
        moves@ == spec_piece_moves(*state, piece_type, position as int),
{
    match piece_type {
        PieceType::Bishop => bishop_moves_of(state, position),
        PieceType::Knight => knight_moves_of(state, position),
        PieceType::Pawn => pawn_moves_of(state, position),
        PieceType::Queen => queen_moves_of(state, position),
        PieceType::Rook => rook_moves_of(state, position),
        PieceType::King => Vec::new(),
        PieceType::Empty => Vec::new(),
    }
}

/// A generated king move is well formed: it starts on the king's square,
/// ends on the board, and carries no pawn flags.
pub open spec fn spec_king_move_ok(m: PieceMove, king_position: i8) -> bool {
    &&& m.from_position == king_position
    &&& 0 <= m.to_position < 64
    &&& !m.is_promotion
    &&& !m.is_en_passant
}

/// The moves the attack scan generates for the piece on a square: its
/// pseudo-legal moves, or for a king its raw moves computed with no
/// opponent information (which only keeps the two kings apart).
pub open spec fn spec_attack_moves(s: BoardState, p: int) -> Seq<PieceMove> {
    if spec_piece_type(s.squares@[p]) == PieceType::King {
        spec_king_raw_moves(s, Seq::<PieceMove>::empty(), p)
    } else {
        spec_piece_moves(s, spec_piece_type(s.squares@[p]), p)
    }
}

/// Some piece of the side to move has a generated move onto the target
/// square.
pub open spec fn spec_attacked_by_piece(s: BoardState, target: i8) -> bool {
    exists|p: int|
        0 <= p < 64 && #[trigger] s.squares@[p] != EMPTY_PIECE && spec_is_white(s.squares@[p])
            == s.white_move && spec_attacks_to(spec_attack_moves(s, p), target)
}

/// The castle candidate `try_castle` admits on one side: none when the
/// king would cross or land on a covered square, or when an enemy pawn
/// stands right ahead of the king or ahead beside the crossing.
pub open spec fn spec_try_castle(
    s: BoardState,
    king_position: int,
    king_piece: i8,
    is_king_side: bool,
    new_position: int,
    opponent_moves: Seq<PieceMove>,
) -> Seq<PieceMove> {
    let crossing = king_position + (if new_position < king_position {
        -1int
    } else {
        1int
    });
    if spec_attacks_to(opponent_moves, new_position as i8) || spec_attacks_to(
        opponent_moves,
        crossing as i8,
    ) {
        Seq::<PieceMove>::empty()
    } else {
        let white = spec_is_white(king_piece);
        let offset: int = if white {
            -8
        } else {
            8
        };
        let frontal = king_position + offset;
        let side_diagonal = if is_king_side {
            frontal + 2
        } else {
            frontal - 2
        };
        let pawn_value: i8 = if white {
            BLACK_PAWN_VALUE
        } else {
            WHITE_PAWN_VALUE
        };
        if s.spec_piece_at(frontal as i8) != pawn_value && s.spec_piece_at(side_diagonal as i8)
            != pawn_value {
            seq![
                PieceMove {
                    from_position: king_position as i8,
                    is_capture: false,
                    is_en_passant: false,
                    is_promotion: false,
                    move_worth: 0,
                    piece_value: king_piece,
                    promotion_type: EMPTY_PIECE,
                    to_position: new_position as i8,
                },
            ]
        } else {
            Seq::<PieceMove>::empty()
        }
    }
}

/// The castle candidates of an unmoved king that still holds the
/// matching right, with the path to the rook clear: queen side first,
/// then king side.
pub open spec fn spec_castle_moves(
    s: BoardState,
    king_piece: i8,
    opponent_moves: Seq<PieceMove>,
    king_position: int,
) -> Seq<PieceMove> {
    let white = spec_is_white(king_piece);
    let moved = if white {
        s.white_king_moved
    } else {
        s.black_king_moved
    };
    if moved {
        Seq::<PieceMove>::empty()
    } else {
        let qs_rook: int = if white {
            56
        } else {
            0
        };
        let ks_rook: int = if white {
            63
        } else {
            7
        };
        let able_qs = if white {
            s.white_able_to_queen_side_castle
        } else {
            s.black_able_to_queen_side_castle
        };
        let able_ks = if white {
            s.white_able_to_king_side_castle
        } else {
            s.black_able_to_king_side_castle
        };
        (if able_qs && king_position - 2 >= 0 && qs_rook <= king_position - 1 && spec_path_clear(
            s,
            king_position - 1,
            qs_rook,
            -1,
        ) {
            spec_try_castle(s, king_position, king_piece, false, king_position - 2, opponent_moves)
        } else {
            Seq::<PieceMove>::empty()
        }) + (if able_ks && king_position + 2 < 64 && king_position + 1 <= ks_rook
            && spec_path_clear(s, king_position + 1, ks_rook, 1) {
            spec_try_castle(s, king_position, king_piece, true, king_position + 2, opponent_moves)
        } else {
            Seq::<PieceMove>::empty()
        })
    }
}

/// The index of the first move in the list from position `k` on that
/// ends on the given square, or -1 when none does.
pub open spec fn spec_find_to(moves: Seq<PieceMove>, to: i8, k: int) -> int
    decreases moves.len() - k,
{
    if k < 0 || k >= moves.len() {
        -1
    } else if moves[k].to_position == to {
        k
    } else {
        spec_find_to(moves, to, k + 1)
    }
}

/// A found index lies in range and is sound; -1 means no move from `k`
/// on ends on the square.
pub proof fn lemma_find_to_range(moves: Seq<PieceMove>, to: i8, k: int)
    requires
        0 <= k <= moves.len(),
    ensures
        spec_find_to(moves, to, k) == -1 ==> (forall|j: int|
            k <= j < moves.len() ==> (#[trigger] moves[j]).to_position != to),
        spec_find_to(moves, to, k) >= 0 ==> k <= spec_find_to(moves, to, k) < moves.len()
            && moves[spec_find_to(moves, to, k)].to_position == to && (forall|j: int|
            k <= j < spec_find_to(moves, to, k) ==> (#[trigger] moves[j]).to_position != to),
    decreases moves.len() - k,
{
    if k < moves.len() && moves[k].to_position != to {
        lemma_find_to_range(moves, to, k + 1);
    }
}

/// The moves one adjacent king destination contributes: a step onto a
/// square covered only by a pawn pushing straight at it, or onto an
/// uncovered square not held by a friend.
pub open spec fn spec_king_step(
    s: BoardState,
    opponent_moves: Seq<PieceMove>,
    position: int,
    king_position: int,
    king: i8,
) -> Seq<PieceMove> {
    let idx = spec_find_to(opponent_moves, position as i8, 0);
    if idx >= 0 {
        let f = opponent_moves[idx].from_position;
        if 0 <= f < 64 && spec_piece_type(s.squares@[f as int]) == PieceType::Pawn {
            seq![
                PieceMove {
                    from_position: king_position as i8,
                    is_capture: false,
                    is_en_passant: false,
                    is_promotion: false,
                    move_worth: 0,
                    piece_value: king,
                    promotion_type: EMPTY_PIECE,
                    to_position: position as i8,
                },
            ]
        } else {
            Seq::<PieceMove>::empty()
        }
    } else {
        let piece_value = s.squares@[position];
        let same = spec_is_white(king) == spec_is_white(piece_value);
        if piece_value == EMPTY_PIECE || !same {
            seq![
                PieceMove {
                    from_position: king_position as i8,
                    is_capture: piece_value != EMPTY_PIECE && !same,
                    is_en_passant: false,
                    is_promotion: false,
                    move_worth: 0,
                    piece_value: king,
                    promotion_type: EMPTY_PIECE,
                    to_position: position as i8,
                },
            ]
        } else {
            Seq::<PieceMove>::empty()
        }
    }
}

/// One adjacent candidate of the king's raw move set, after the board
/// edge filter.
pub open spec fn spec_king_adjacent_part(
    s: BoardState,
    opponent_moves: Seq<PieceMove>,
    king_position: int,
    candidate: int,
    king: i8,
) -> Seq<PieceMove> {
    let adj = crate::move_generator_helper::spec_adjacent_position(king_position, candidate);
    if 0 <= adj < 64 {
        spec_king_step(s, opponent_moves, adj, king_position, king)
    } else {
        Seq::<PieceMove>::empty()
    }
}

/// The king's raw moves: the eight adjacent candidates in generation
/// order, then the castle candidates when the king's own square is not
/// covered.
pub open spec fn spec_king_raw_moves(
    s: BoardState,
    opponent_moves: Seq<PieceMove>,
    king_position: int,
) -> Seq<PieceMove> {
    let king = s.squares@[king_position];
    spec_king_adjacent_part(s, opponent_moves, king_position, king_position - 1, king)
        + spec_king_adjacent_part(s, opponent_moves, king_position, king_position + 1, king)
        + spec_king_adjacent_part(s, opponent_moves, king_position, king_position - 9, king)
        + spec_king_adjacent_part(s, opponent_moves, king_position, king_position - 8, king)
        + spec_king_adjacent_part(s, opponent_moves, king_position, king_position - 7, king)
        + spec_king_adjacent_part(s, opponent_moves, king_position, king_position + 7, king)
        + spec_king_adjacent_part(s, opponent_moves, king_position, king_position + 8, king)
        + spec_king_adjacent_part(s, opponent_moves, king_position, king_position + 9, king)
        + (if !spec_attacks_to(opponent_moves, king_position as i8) {
        spec_castle_moves(s, king, opponent_moves, king_position)
    } else {
        Seq::<PieceMove>::empty()
    })
}

/// One adjacent king destination, appended to `moves` unless the square
/// is covered by an opponent move (with the exception that a square only
/// a pawn pushes onto is still available) or held by a friend.
fn add_new_king_position(
    state: &BoardState,
    opponent_moves: &Vec<PieceMove>,
    position: i8,
    moves: &mut Vec<PieceMove>,
    king_position: i8,
    king: i8,
)
    requires
        state.wf(),
        0 <= king_position < 64,
        0 <= position < 64,
        forall|j: int|
            0 <= j < old(moves)@.len() ==> spec_king_move_ok(
                #[trigger] old(moves)@[j],
                king_position,
            ),
    ensures
        final(moves)@ == old(moves)@ + spec_king_step(
            *state,
            opponent_moves@,
            position as int,
            king_position as int,
            king,
        ),
        old(moves)@.len() <= final(moves)@.len() <= old(moves)@.len() + 1,
        forall|j: int|
            0 <= j < final(moves)@.len() ==> spec_king_move_ok(
                #[trigger] final(moves)@[j],
                king_position,
            ),
{
    let ghost fidx = spec_find_to(opponent_moves@, position, 0);
    proof {
        lemma_find_to_range(opponent_moves@, position, 0);
    }
    let mut attacker_from: i8 = -1;
    let mut found = false;
    let mut i: usize = 0;
    while i < opponent_moves.len() && !found
        invariant
            i <= opponent_moves@.len(),
            -1 <= attacker_from < 64,
            fidx == spec_find_to(opponent_moves@, position, 0),
            !found ==> spec_find_to(opponent_moves@, position, 0) == spec_find_to(
                opponent_moves@,
                position,
                i as int,
            ),
            found ==> fidx >= 0 && attacker_from == (if 0 <= opponent_moves@[
                fidx
            ].from_position < 64 {
                opponent_moves@[fidx].from_position
            } else {
                -1i8
            }),
        decreases opponent_moves@.len() - i,
    {
        if opponent_moves[i].get_to_position() == position {
            let f = opponent_moves[i].get_from_position();
            if 0 <= f && f < 64 {
                attacker_from = f;
            } else {
                attacker_from = -1;
            }
            found = true;
            proof {
                assert(fidx == i);
            }
        }
        i = i + 1;
    }
    proof {
        if !found {
            assert(fidx == -1);
        }
    }
    let ghost pre = moves@;
    if found {
        // the square is covered; a pawn covering it straight ahead does
        // not actually attack it, so the king may still step there
        if attacker_from >= 0 {
            let possible_pawn = state.squares[attacker_from as usize];
            if crate::pieces::get_piece_type(possible_pawn) == PieceType::Pawn {
                let m = PieceMove::new(king_position, king, position);
                moves.push(m);
            }
        }
    } else {
        let piece_value = state.squares[position as usize];
        let same_color = is_same_color(king, piece_value);
        if piece_value == EMPTY_PIECE || !same_color {
            let mut m = PieceMove::new(king_position, king, position);
            m.set_is_capture(piece_value != EMPTY_PIECE && !same_color);
            moves.push(m);
        }
    }
    proof {
        assert(moves@ =~= pre + spec_king_step(
            *state,
            opponent_moves@,
            position as int,
            king_position as int,
            king,
        ));
    }
}

/// The castle candidate on one side, appended to `moves` when the king
/// neither crosses nor lands on a covered square and no enemy pawn bears
/// on the crossing from ahead.
fn try_castle(
    state: &BoardState,
    king_position: i8,
    king_piece: i8,
    is_king_side: bool,
    new_position: i8,
    opponent_moves: &Vec<PieceMove>,
    moves: &mut Vec<PieceMove>,
)
    requires
        state.wf(),
        0 <= king_position < 64,
        0 <= new_position < 64,
        new_position == king_position + 2 || new_position == king_position - 2,
        forall|j: int|
            0 <= j < old(moves)@.len() ==> spec_king_move_ok(
                #[trigger] old(moves)@[j],
                king_position,
            ),
    ensures
        final(moves)@ == old(moves)@ + spec_try_castle(
            *state,
            king_position as int,
            king_piece,
            is_king_side,
            new_position as int,
            opponent_moves@,
        ),
        forall|j: int|
            0 <= j < final(moves)@.len() ==> spec_king_move_ok(
                #[trigger] final(moves)@[j],
                king_position,
            ),
{
    let ghost pre = moves@;
    let crossing = king_position + (if new_position < king_position {
        -1
    } else {
        1
    });
    if !position_is_not_attacked(new_position, opponent_moves) || !position_is_not_attacked(
        crossing,
        opponent_moves,
    ) {
        proof {
            assert(moves@ =~= pre + Seq::<PieceMove>::empty());
        }
        return ;
    }
    let is_white_king = is_white_piece(king_piece);
    let offset: i8 = if is_white_king {
        -8
    } else {
        8
    };
    let frontal_pawn_position = king_position + offset;
    let side_diagonal_pawn_position = if is_king_side {
        frontal_pawn_position + 2
    } else {
        frontal_pawn_position - 2
    };
    let pawn_value = if is_white_king {
        BLACK_PAWN_VALUE
    } else {
        WHITE_PAWN_VALUE
    };
    if state.get_piece(frontal_pawn_position) != pawn_value && state.get_piece(
        side_diagonal_pawn_position,
    ) != pawn_value {
        let m = PieceMove::new(king_position, king_piece, new_position);
        moves.push(m);
        proof {
            assert(moves@ =~= pre + spec_try_castle(
                *state,
                king_position as int,
                king_piece,
                is_king_side,
                new_position as int,
                opponent_moves@,
            ));
        }
    } else {
        proof {
            assert(moves@ =~= pre + Seq::<PieceMove>::empty());
        }
    }
}

/// The castle candidates the position still allows: an unmoved king, the
/// right not lost, a clear path to the rook, and `try_castle`'s checks.
fn castle_moves_of(
    state: &BoardState,
    king_piece: i8,
    moves: &mut Vec<PieceMove>,
    opponent_moves: &Vec<PieceMove>,
    king_position: i8,
)
    requires
        state.wf(),
        0 <= king_position < 64,
        forall|j: int|
            0 <= j < old(moves)@.len() ==> spec_king_move_ok(
                #[trigger] old(moves)@[j],
                king_position,
            ),
    ensures
        final(moves)@ == old(moves)@ + spec_castle_moves(
            *state,
            king_piece,
            opponent_moves@,
            king_position as int,
        ),
        old(moves)@.len() <= final(moves)@.len() <= old(moves)@.len() + 2,
        forall|j: int|
            0 <= j < final(moves)@.len() ==> spec_king_move_ok(
                #[trigger] final(moves)@[j],
                king_position,
            ),
{
    let ghost pre = moves@;
    let is_white_king = is_white_piece(king_piece);
    let has_king_moved = if is_white_king {
        state.has_white_king_moved()
    } else {
        state.has_black_king_moved()
    };
    if has_king_moved {
        proof {
            assert(moves@ =~= pre + Seq::<PieceMove>::empty());
        }
        return ;
    }
    let (queen_side_rook_position, king_side_rook_position) = if is_white_king {
        (WHITE_QUEEN_ROOK_POS, WHITE_KING_ROOK_POS)
    } else {
        (BLACK_QUEEN_ROOK_POS, BLACK_KING_ROOK_POS)
    };
    let able_queen_side = state.is_able_to_castle_queen_side(is_white_king);
    let able_king_side = state.is_able_to_castle_king_side(is_white_king);
    if able_queen_side && king_position - 2 >= 0 && queen_side_rook_position <= king_position - 1 {
        if is_path_clear(state, king_position - 1, queen_side_rook_position, -1) {
            try_castle(
                state,
                king_position,
                king_piece,
                false,
                king_position - 2,
                opponent_moves,
                moves,
            );
        }
    }
    if able_king_side && king_position + 2 < 64 && king_position + 1 <= king_side_rook_position {
        if is_path_clear(state, king_position + 1, king_side_rook_position, 1) {
            try_castle(
                state,
                king_position,
                king_piece,
                true,
                king_position + 2,
                opponent_moves,
                moves,
            );
        }
    }
    proof {
        assert(moves@ =~= pre + spec_castle_moves(
            *state,
            king_piece,
            opponent_moves@,
            king_position as int,
        ));
    }
}

/// The king's raw moves: the eight adjacent squares not covered by an
/// opponent move (a pawn covering one straight ahead excepted), plus the
/// castle candidates when the king's own square is not covered.
#[verifier::rlimit(100)]
pub fn king_raw_moves_of(
    state: &BoardState,
    opponent_moves: &Vec<PieceMove>,
    king_position: i8,
) -> (moves: Vec<PieceMove>)
    requires
        state.wf(),
        0 <= king_position < 64,
    ensures
        moves@ == spec_king_raw_moves(*state, opponent_moves@, king_position as int),
        forall|j: int|
            0 <= j < moves@.len() ==> spec_king_move_ok(#[trigger] moves@[j], king_position),
        moves@.len() <= 10,
{
    let mut moves: Vec<PieceMove> = Vec::new();
    let king = state.squares[king_position as usize];
    let p1 = get_adjacent_position(king_position, king_position - 1);
    let p2 = get_adjacent_position(king_position, king_position + 1);
    let p3 = get_adjacent_position(king_position, king_position - 9);
    let p4 = get_adjacent_position(king_position, king_position - 8);
    let p5 = get_adjacent_position(king_position, king_position - 7);
    let p6 = get_adjacent_position(king_position, king_position + 7);
    let p7 = get_adjacent_position(king_position, king_position + 8);
    let p8 = get_adjacent_position(king_position, king_position + 9);
    if p1 >= 0 && p1 < 64 {
        add_new_king_position(state, opponent_moves, p1, &mut moves, king_position, king);
    } else {
        proof {
            assert(moves@ =~= moves@ + Seq::<PieceMove>::empty());
        }
    }
    if p2 >= 0 && p2 < 64 {
        add_new_king_position(state, opponent_moves, p2, &mut moves, king_position, king);
    } else {
        proof {
            assert(moves@ =~= moves@ + Seq::<PieceMove>::empty());
        }
    }
    if p3 >= 0 && p3 < 64 {
        add_new_king_position(state, opponent_moves, p3, &mut moves, king_position, king);
    } else {
        proof {
            assert(moves@ =~= moves@ + Seq::<PieceMove>::empty());
        }
    }
    if p4 >= 0 && p4 < 64 {
        add_new_king_position(state, opponent_moves, p4, &mut moves, king_position, king);
    } else {
        proof {
            assert(moves@ =~= moves@ + Seq::<PieceMove>::empty());
        }
    }
    if p5 >= 0 && p5 < 64 {
        add_new_king_position(state, opponent_moves, p5, &mut moves, king_position, king);
    } else {
        proof {
            assert(moves@ =~= moves@ + Seq::<PieceMove>::empty());
        }
    }
    if p6 >= 0 && p6 < 64 {
        add_new_king_position(state, opponent_moves, p6, &mut moves, king_position, king);
    } else {
        proof {
            assert(moves@ =~= moves@ + Seq::<PieceMove>::empty());
        }
    }
    if p7 >= 0 && p7 < 64 {
        add_new_king_position(state, opponent_moves, p7, &mut moves, king_position, king);
    } else {
        proof {
            assert(moves@ =~= moves@ + Seq::<PieceMove>::empty());
        }
    }
    if p8 >= 0 && p8 < 64 {
        add_new_king_position(state, opponent_moves, p8, &mut moves, king_position, king);
    } else {
        proof {
            assert(moves@ =~= moves@ + Seq::<PieceMove>::empty());
        }
    }
    if position_is_not_attacked(king_position, opponent_moves) {
        castle_moves_of(state, king, &mut moves, opponent_moves, king_position);
    } else {
        proof {
            assert(moves@ =~= moves@ + Seq::<PieceMove>::empty());
        }
    }
    proof {
        assert(moves@ =~= spec_king_raw_moves(*state, opponent_moves@, king_position as int));
    }
    moves
}

/// Whether any piece of the side to move in `board_state` has a
/// generated move onto `king_position`.
pub fn is_king_attacked_on_state(king_position: i8, board_state: &BoardState) -> (r: bool)
    requires
        board_state.wf(),
    ensures
        r == spec_attacked_by_piece(*board_state, king_position),
{
    let is_white_move = board_state.is_white_move();
    let empty_opponent: Vec<PieceMove> = Vec::new();
    let mut position: usize = 0;
    while position < 64
        invariant
            position <= 64,
            board_state.wf(),
            is_white_move == board_state.white_move,
            empty_opponent@ == Seq::<PieceMove>::empty(),
            forall|p: int|
                0 <= p < position ==> !(#[trigger] board_state.squares@[p] != EMPTY_PIECE
                    && spec_is_white(board_state.squares@[p]) == board_state.white_move
                    && spec_attacks_to(spec_attack_moves(*board_state, p), king_position)),
        decreases 64 - position,
    {
        let piece = board_state.squares[position];
        if piece == EMPTY_PIECE || is_white_piece(piece) != is_white_move {
            position = position + 1;
            continue ;
        }
        let piece_type = get_piece_type(piece);
        let moves = if piece_type != PieceType::King {
            piece_moves_of(board_state, piece_type, position as i8)
        } else {
            // raw king moves, with no opponent information: this only
            // serves to keep the two kings apart
            king_raw_moves_of(board_state, &empty_opponent, position as i8)
        };
        proof {
            assert(moves@ == spec_attack_moves(*board_state, position as int));
        }
        if !position_is_not_attacked(king_position, &moves) {
            proof {
                assert(spec_attacks_to(
                    spec_attack_moves(*board_state, position as int),
                    king_position,
                ));
            }
            return true;
        }
        position = position + 1;
    }
    false
}

#[derive(Debug)]
pub struct MoveGenerator {
    pub board_state: BoardState,
}

impl MoveGenerator {
    pub fn new(board_state: BoardState) -> (generator: MoveGenerator)
        ensures
            generator.board_state == board_state,
    {
        MoveGenerator { board_state }
    }

    pub fn generate_knight_moves(&self, position: i8) -> (moves: Vec<PieceMove>)
        requires
            self.board_state.wf(),
            0 <= position < 64,
        ensures
            moves@ == spec_knight_moves(self.board_state, position as int),
    {
        knight_moves_of(&self.board_state, position)
    }

    pub fn generate_bishop_moves(&self, position: i8) -> (moves: Vec<PieceMove>)
        requires
            self.board_state.wf(),
            0 <= position < 64,
        ensures
            moves@ == spec_bishop_moves(self.board_state, position as int),
    {
        bishop_moves_of(&self.board_state, position)
    }

    pub fn generate_rook_moves(&self, position: i8) -> (moves: Vec<PieceMove>)
        requires
            self.board_state.wf(),
            0 <= position < 64,
        ensures
            moves@ == spec_rook_moves(self.board_state, position as int),
    {
        rook_moves_of(&self.board_state, position)
    }

    pub fn generate_queen_moves(&self, position: i8) -> (moves: Vec<PieceMove>)
        requires
            self.board_state.wf(),
            0 <= position < 64,
        ensures
            moves@ == spec_queen_moves(self.board_state, position as int),
    {
        queen_moves_of(&self.board_state, position)
    }

    pub fn generate_pawn_moves(&self, position: i8) -> (moves: Vec<PieceMove>)
        requires
            self.board_state.wf(),
            0 <= position < 64,
        ensures
            moves@ == spec_pawn_moves(self.board_state, position as int),
    {
        pawn_moves_of(&self.board_state, position)
    }

    pub fn generate_king_raw_moves(
        &self,
        opponent_moves: &Vec<PieceMove>,
        king_position: i8,
    ) -> (moves: Vec<PieceMove>)
        requires
            self.board_state.wf(),
            0 <= king_position < 64,
        ensures
            moves@ == spec_king_raw_moves(
                self.board_state,
                opponent_moves@,
                king_position as int,
            ),
            forall|j: int|
                0 <= j < moves@.len() ==> spec_king_move_ok(#[trigger] moves@[j], king_position),
    {
        king_raw_moves_of(&self.board_state, opponent_moves, king_position)
    }

    fn generate_moves(&self, piece_type: PieceType, position: i8) -> (moves: Vec<PieceMove>)
        requires
            self.board_state.wf(),
            0 <= position < 64,
        ensures
            moves@ == spec_piece_moves(self.board_state, piece_type, position as int),
    {
        piece_moves_of(&self.board_state, piece_type, position)
    }

    fn determine_move_and_king_position(&self) -> (r: (bool, i8))
        requires
            self.board_state.wf(),
        ensures
            r.0 == self.board_state.white_move,
            r.1 == (if self.board_state.white_move {
                self.board_state.white_king_position
            } else {
                self.board_state.black_king_position
            }),
            0 <= r.1 < 64,
    {
        let is_white_move = self.board_state.is_white_move();
        let king_position = if is_white_move {
            self.board_state.get_white_king_position()
        } else {
            self.board_state.get_black_king_position()
        };
        (is_white_move, king_position)
    }
}

impl MoveGenerator {
    /// Make one candidate move on the board; keep it when the mover's
    /// king (or, for a king move, its destination) is not attacked on
    /// the resulting position; then take the move back.  The board comes
    /// back exactly as it was.
    fn validate_move(
        &self,
        piece_move: &PieceMove,
        king_position: i8,
        board: &mut Board,
        valid_moves: &mut Vec<PieceMove>,
        is_king: bool,
        piece_value: i8,
    )
        requires
            old(board).inv(),
        ensures
            final(board).inv(),
            final(board).state.spec_eq_states(old(board).state),
            final(board).state_history@ == old(board).state_history@,
            final(valid_moves)@ == (if spec_move_kept(
                old(board).state,
                *piece_move,
                piece_value,
                is_king,
                king_position,
            ) {
                old(valid_moves)@.push(*piece_move)
            } else {
                old(valid_moves)@
            }),
    {
        let mut piece_move_clone = piece_move.clone();
        let target_position = if is_king {
            piece_move.get_to_position()
        } else {
            king_position
        };
        if piece_move_clone.is_promotion() {
            // legality does not depend on which piece the pawn becomes:
            // any promotion piece blocks and is captured alike, so the
            // filter tries the mover's queen
            piece_move_clone.set_promotion_value(
                if crate::pieces::is_white_piece(piece_value) {
                    21
                } else {
                    13
                },
            );
        }
        let ghost history_before = board.state_history@;
        match board.make_move(&piece_move_clone) {
            Ok(_) => {
                let ghost mid = board.state;
                let attacked = is_king_attacked_on_state(
                    target_position,
                    board.get_state_reference(),
                );
                proof {
                    assert(piece_move_clone == spec_adjusted_move(*piece_move, piece_value));
                    assert(spec_post_make(old(board).state, piece_move_clone, mid));
                }
                if !attacked {
                    valid_moves.push(piece_move.clone());
                } else {
                    proof {
                        if spec_king_safe_after(
                            old(board).state,
                            piece_move_clone,
                            target_position,
                        ) {
                            let post = choose|post: BoardState|
                                #[trigger] spec_post_make(old(board).state, piece_move_clone, post)
                                    && !spec_attacked_by_piece(post, target_position);
                            lemma_post_make_relevant_eq(
                                old(board).state,
                                piece_move_clone,
                                post,
                                mid,
                            );
                            lemma_attacked_by_piece_eq(post, mid, target_position);
                        }
                    }
                }
                board.undo_last_move();
                proof {
                    assert(final(board).state_history@ =~= history_before);
                }
            },
            Err(_) => {},
        }
    }

    /// Filter one square's candidate list down to its legal moves; a
    /// square of the opponent or an empty one is left alone.  Clears the
    /// no-moves flag when a legal move survives.
    fn filter_invalid_moves(
        &self,
        board_piece: &mut BoardPiece,
        king_position: i8,
        board: &mut Board,
        no_moves_available: &mut bool,
        is_white_move: bool,
    )
        requires
            old(board).inv(),
        ensures
            final(board).inv(),
            final(board).state.spec_eq_states(old(board).state),
            final(board).state_history@ == old(board).state_history@,
            final(board_piece).position == old(board_piece).position,
            final(board_piece).value == old(board_piece).value,
            final(board_piece).white == old(board_piece).white,
            (old(board_piece).value == EMPTY_PIECE || old(board_piece).white != is_white_move)
                ==> final(board_piece).moves@ == old(board_piece).moves@ && *final(no_moves_available) == *old(no_moves_available),
            !(old(board_piece).value == EMPTY_PIECE || old(board_piece).white != is_white_move)
                ==> *final(no_moves_available) == (*old(no_moves_available) && final(board_piece).moves@.len() == 0),
            final(board_piece).moves@.len() <= old(board_piece).moves@.len(),
            forall|j: int|
                0 <= j < final(board_piece).moves@.len() ==> old(board_piece).moves@.contains(
                    #[trigger] final(board_piece).moves@[j],
                ),
            !(old(board_piece).value == EMPTY_PIECE || old(board_piece).white != is_white_move)
                ==> final(board_piece).moves@ == spec_kept_moves(
                old(board).state,
                old(board_piece).moves@,
                old(board_piece).moves@.len() as int,
                old(board_piece).value,
                spec_piece_type(old(board_piece).value) == PieceType::King,
                king_position,
            ),
            !(old(board_piece).value == EMPTY_PIECE || old(board_piece).white != is_white_move)
                ==> (forall|j: int|
                0 <= j < final(board_piece).moves@.len() ==> spec_king_safe_with(
                    old(board).state,
                    spec_adjusted_move(
                        #[trigger] final(board_piece).moves@[j],
                        old(board_piece).value,
                    ),
                    if spec_piece_type(old(board_piece).value) == PieceType::King {
                        final(board_piece).moves@[j].to_position
                    } else {
                        king_position
                    },
                )),
    {
        let piece_value = board_piece.get_value();
        if piece_value == EMPTY_PIECE || board_piece.is_white() != is_white_move {
            return ;
        }
        let is_king = get_piece_type(piece_value) == PieceType::King;
        let mut valid_moves: Vec<PieceMove> = Vec::new();
        let mut i: usize = 0;
        while i < board_piece.moves.len()
            invariant
                i <= board_piece.moves@.len(),
                board.inv(),
                board.state.spec_eq_states(old(board).state),
                board.state_history@ == old(board).state_history@,
                board_piece.moves@ == old(board_piece).moves@,
                board_piece.position == old(board_piece).position,
                board_piece.value == old(board_piece).value,
                board_piece.white == old(board_piece).white,
                valid_moves@.len() <= i,
                is_king == (spec_piece_type(piece_value) == PieceType::King),
                piece_value == old(board_piece).value,
                valid_moves@ == spec_kept_moves(
                    old(board).state,
                    old(board_piece).moves@,
                    i as int,
                    piece_value,
                    is_king,
                    king_position,
                ),
                forall|j: int|
                    0 <= j < valid_moves@.len() ==> old(board_piece).moves@.contains(
                        #[trigger] valid_moves@[j],
                    ),
                forall|j: int|
                    0 <= j < valid_moves@.len() ==> spec_king_safe_with(
                        old(board).state,
                        spec_adjusted_move(#[trigger] valid_moves@[j], piece_value),
                        if is_king {
                            valid_moves@[j].to_position
                        } else {
                            king_position
                        },
                    ),
            decreases board_piece.moves@.len() - i,
        {
            let piece_move = board_piece.moves[i];
            let ghost pre_call_state = board.state;
            let ghost pre_valid = valid_moves@;
            self.validate_move(
                &piece_move,
                king_position,
                board,
                &mut valid_moves,
                is_king,
                piece_value,
            );
            proof {
                lemma_move_kept_eq(
                    pre_call_state,
                    old(board).state,
                    piece_move,
                    piece_value,
                    is_king,
                    king_position,
                );
                if valid_moves@.len() != pre_valid.len() {
                    // the kept move is safe for the state the filter saw,
                    // which observably equals the filter's own entry state
                    assert(spec_king_safe_after(
                        pre_call_state,
                        spec_adjusted_move(piece_move, piece_value),
                        if is_king {
                            piece_move.to_position
                        } else {
                            king_position
                        },
                    ));
                    assert(pre_call_state.spec_eq_states(old(board).state));
                    assert(spec_king_safe_with(
                        old(board).state,
                        spec_adjusted_move(piece_move, piece_value),
                        if is_king {
                            piece_move.to_position
                        } else {
                            king_position
                        },
                    ));
                }
            }
            i = i + 1;
        }
        if valid_moves.len() > 0 {
            *no_moves_available = false;
        }
        board_piece.set_moves(valid_moves);
    }

    /// Filter every candidate list of the side to move down to the legal
    /// moves; when none survives, record the game's end on the board
    /// (checkmate for the opponent, or stalemate).
    pub fn remove_locked_and_invalid_moves(
        &self,
        pieces: &mut Vec<BoardPiece>,
        board: &mut Board,
    )
        requires
            self.board_state.wf(),
            old(board).inv(),
            old(pieces)@.len() == 64,
        ensures
            final(board).inv(),
            final(board).state.spec_eq_states_except_winner(old(board).state),
            final(board).state_history@ == old(board).state_history@,
            final(pieces)@.len() == 64,
            forall|i: int|
                0 <= i < 64 ==> (#[trigger] final(pieces)@[i]).position == old(pieces)@[i].position
                    && final(pieces)@[i].value == old(pieces)@[i].value && final(pieces)@[i].white
                    == old(pieces)@[i].white,
            forall|i: int|
                0 <= i < 64 && (old(pieces)@[i].value == EMPTY_PIECE || old(pieces)@[i].white
                    != self.board_state.white_move) ==> (#[trigger] final(pieces)@[i]).moves@
                    == old(pieces)@[i].moves@,
            forall|i: int|
                0 <= i < 64 ==> (#[trigger] final(pieces)@[i]).moves@.len() <= old(pieces)@[i].moves@.len(),
            forall|i: int|
                0 <= i < 64 && old(pieces)@[i].value != EMPTY_PIECE && old(pieces)@[i].white
                    == self.board_state.white_move ==> (#[trigger] final(pieces)@[i]).moves@
                    == spec_kept_moves(
                    old(board).state,
                    old(pieces)@[i].moves@,
                    old(pieces)@[i].moves@.len() as int,
                    old(pieces)@[i].value,
                    spec_piece_type(old(pieces)@[i].value) == PieceType::King,
                    if self.board_state.white_move {
                        self.board_state.white_king_position
                    } else {
                        self.board_state.black_king_position
                    },
                ),
            forall|i: int, j: int|
                0 <= i < 64 && 0 <= j < final(pieces)@[i].moves@.len() ==> old(pieces)@[i].moves@.contains(#[trigger] final(pieces)@[i].moves@[j]),
            forall|i: int, j: int|
                0 <= i < 64 && old(pieces)@[i].value != EMPTY_PIECE && old(pieces)@[i].white
                    == self.board_state.white_move && 0 <= j < final(pieces)@[i].moves@.len()
                    ==> spec_king_safe_with(
                    old(board).state,
                    spec_adjusted_move(
                        #[trigger] final(pieces)@[i].moves@[j],
                        old(pieces)@[i].value,
                    ),
                    if spec_piece_type(old(pieces)@[i].value) == PieceType::King {
                        final(pieces)@[i].moves@[j].to_position
                    } else {
                        if self.board_state.white_move {
                            self.board_state.white_king_position
                        } else {
                            self.board_state.black_king_position
                        }
                    },
                ),
            (exists|i: int|
                0 <= i < 64 && (#[trigger] final(pieces)@[i]).value != EMPTY_PIECE && final(pieces)@[i].white == self.board_state.white_move && final(pieces)@[i].moves@.len() > 0)
                ==> final(board).state.winner == old(board).state.winner,
            !(exists|i: int|
                0 <= i < 64 && (#[trigger] final(pieces)@[i]).value != EMPTY_PIECE && final(pieces)@[i].white == self.board_state.white_move && final(pieces)@[i].moves@.len() > 0)
                ==> final(board).state.winner == crate::board::spec_winner_code(
                spec_is_king_in_check(
                    old(pieces)@,
                    if self.board_state.white_move {
                        self.board_state.white_king_position
                    } else {
                        self.board_state.black_king_position
                    },
                    self.board_state.white_move,
                ),
                self.board_state.white_move,
            ),
    {
        let (is_white_move, king_position) = self.determine_move_and_king_position();
        let mut no_moves_available: bool = true;
        let king_in_check = is_king_in_check(pieces, king_position, is_white_move);
        let mut i: usize = 0;
        while i < 64
            invariant
                i <= 64,
                board.inv(),
                board.state.spec_eq_states(old(board).state),
                board.state_history@ == old(board).state_history@,
                pieces@.len() == 64,
                is_white_move == self.board_state.white_move,
                forall|k: int|
                    0 <= k < 64 ==> (#[trigger] pieces@[k]).position == old(pieces)@[k].position
                        && pieces@[k].value == old(pieces)@[k].value && pieces@[k].white == old(pieces)@[k].white,
                forall|k: int| i <= k < 64 ==> (#[trigger] pieces@[k]).moves@ == old(pieces)@[k].moves@,
                forall|k: int|
                    0 <= k < i && (old(pieces)@[k].value == EMPTY_PIECE || old(pieces)@[k].white
                        != is_white_move) ==> (#[trigger] pieces@[k]).moves@ == old(pieces)@[k].moves@,
                forall|k: int|
                    0 <= k < 64 ==> (#[trigger] pieces@[k]).moves@.len() <= old(pieces)@[k].moves@.len(),
                forall|k: int|
                    0 <= k < i && old(pieces)@[k].value != EMPTY_PIECE && old(pieces)@[k].white
                        == is_white_move ==> (#[trigger] pieces@[k]).moves@ == spec_kept_moves(
                        old(board).state,
                        old(pieces)@[k].moves@,
                        old(pieces)@[k].moves@.len() as int,
                        old(pieces)@[k].value,
                        spec_piece_type(old(pieces)@[k].value) == PieceType::King,
                        king_position,
                    ),
                forall|k: int, j: int|
                    0 <= k < 64 && 0 <= j < pieces@[k].moves@.len() ==> old(pieces)@[k].moves@.contains(#[trigger] pieces@[k].moves@[j]),
                king_position == (if self.board_state.white_move {
                    self.board_state.white_king_position
                } else {
                    self.board_state.black_king_position
                }),
                forall|k: int, j: int|
                    0 <= k < i && old(pieces)@[k].value != EMPTY_PIECE && old(pieces)@[k].white
                        == is_white_move && 0 <= j < pieces@[k].moves@.len()
                        ==> spec_king_safe_with(
                        old(board).state,
                        spec_adjusted_move(
                            #[trigger] pieces@[k].moves@[j],
                            old(pieces)@[k].value,
                        ),
                        if spec_piece_type(old(pieces)@[k].value) == PieceType::King {
                            pieces@[k].moves@[j].to_position
                        } else {
                            king_position
                        },
                    ),
                no_moves_available ==> (forall|k: int|
                    0 <= k < i ==> !((#[trigger] pieces@[k]).value != EMPTY_PIECE && pieces@[k].white
                        == is_white_move && pieces@[k].moves@.len() > 0)),
                !no_moves_available ==> (exists|k: int|
                    0 <= k < i && (#[trigger] pieces@[k]).value != EMPTY_PIECE && pieces@[k].white
                        == is_white_move && pieces@[k].moves@.len() > 0),
            decreases 64 - i,
        {
            let ghost entry_pieces = pieces@;
            let ghost entry_nm = no_moves_available;
            let ghost entry_state = board.state;
            let board_piece = &mut pieces[i];
            self.filter_invalid_moves(
                board_piece,
                king_position,
                board,
                &mut no_moves_available,
                is_white_move,
            );
            proof {
                assert(forall|k: int| 0 <= k < 64 && k != i ==> pieces@[k] == entry_pieces[k]);
                if old(pieces)@[i as int].value != EMPTY_PIECE && old(pieces)@[i as int].white
                    == is_white_move {
                    lemma_kept_moves_eq(
                        entry_state,
                        old(board).state,
                        old(pieces)@[i as int].moves@,
                        old(pieces)@[i as int].moves@.len() as int,
                        old(pieces)@[i as int].value,
                        spec_piece_type(old(pieces)@[i as int].value) == PieceType::King,
                        king_position,
                    );
                    let value = old(pieces)@[i as int].value;
                    let tgt_king = spec_piece_type(value) == PieceType::King;
                    assert forall|j: int|
                        0 <= j < pieces@[i as int].moves@.len() implies spec_king_safe_with(
                        old(board).state,
                        spec_adjusted_move(#[trigger] pieces@[i as int].moves@[j], value),
                        if tgt_king {
                            pieces@[i as int].moves@[j].to_position
                        } else {
                            king_position
                        },
                    ) by {
                        lemma_king_safe_with_eq(
                            entry_state,
                            old(board).state,
                            spec_adjusted_move(pieces@[i as int].moves@[j], value),
                            if tgt_king {
                                pieces@[i as int].moves@[j].to_position
                            } else {
                                king_position
                            },
                        );
                    }
                }
                if !no_moves_available {
                    if pieces@[i as int].value != EMPTY_PIECE && pieces@[i as int].white
                        == is_white_move && pieces@[i as int].moves@.len() > 0 {
                        assert(exists|k: int|
                            0 <= k < i + 1 && (#[trigger] pieces@[k]).value != EMPTY_PIECE
                                && pieces@[k].white == is_white_move && pieces@[k].moves@.len()
                                > 0);
                    } else {
                        assert(!entry_nm);
                        let w = choose|k: int|
                            0 <= k < i && (#[trigger] entry_pieces[k]).value != EMPTY_PIECE
                                && entry_pieces[k].white == is_white_move
                                && entry_pieces[k].moves@.len() > 0;
                        assert(pieces@[w] == entry_pieces[w]);
                        assert(exists|k: int|
                            0 <= k < i + 1 && (#[trigger] pieces@[k]).value != EMPTY_PIECE
                                && pieces@[k].white == is_white_move && pieces@[k].moves@.len()
                                > 0);
                    }
                }
            }
            i = i + 1;
        }
        if no_moves_available {
            board.set_winner(king_in_check, is_white_move);
        }
    }

    /// Generate the pseudo-legal moves of every non-king piece, collect
    /// them per color, and wrap each square in a `BoardPiece`.
    fn generate_pieces_moves(&self) -> (r: (Vec<PieceMove>, Vec<PieceMove>, Vec<BoardPiece>))
        requires
            self.board_state.wf(),
        ensures
            r.2@.len() == 64,
            forall|i: int|
                0 <= i < 64 ==> (#[trigger] r.2@[i]).position == i && r.2@[i].value
                    == self.board_state.squares@[i] && r.2@[i].white == spec_is_white(
                    self.board_state.squares@[i],
                ),
            forall|i: int|
                0 <= i < 64 ==> (#[trigger] r.2@[i]).moves@ == (if spec_piece_type(
                    self.board_state.squares@[i],
                ) != PieceType::Empty && spec_piece_type(self.board_state.squares@[i])
                    != PieceType::King {
                    spec_piece_moves(
                        self.board_state,
                        spec_piece_type(self.board_state.squares@[i]),
                        i,
                    )
                } else {
                    Seq::<PieceMove>::empty()
                }),
            (r.0@.len() == 0 && r.1@.len() == 0) ==> (forall|i: int|
                0 <= i < 64 ==> (#[trigger] r.2@[i]).moves@.len() == 0),
            forall|i: int| 0 <= i < 64 ==> (#[trigger] r.2@[i]).moves@.len() <= 56,
            r.0@ == spec_side_moves(self.board_state, false, 64),
            r.1@ == spec_side_moves(self.board_state, true, 64),
    {
        let mut black_moves: Vec<PieceMove> = Vec::new();
        let mut white_moves: Vec<PieceMove> = Vec::new();
        let mut pieces: Vec<BoardPiece> = Vec::new();
        let mut position: usize = 0;
        while position < 64
            invariant
                position <= 64,
                self.board_state.wf(),
                pieces@.len() == position,
                forall|i: int|
                    0 <= i < position ==> (#[trigger] pieces@[i]).position == i && pieces@[i].value
                        == self.board_state.squares@[i] && pieces@[i].white == spec_is_white(
                        self.board_state.squares@[i],
                    ),
                forall|i: int|
                    0 <= i < position ==> (#[trigger] pieces@[i]).moves@ == (if spec_piece_type(
                        self.board_state.squares@[i],
                    ) != PieceType::Empty && spec_piece_type(self.board_state.squares@[i])
                        != PieceType::King {
                        spec_piece_moves(
                            self.board_state,
                            spec_piece_type(self.board_state.squares@[i]),
                            i,
                        )
                    } else {
                        Seq::<PieceMove>::empty()
                    }),
                (black_moves@.len() == 0 && white_moves@.len() == 0) ==> (forall|i: int|
                    0 <= i < position ==> (#[trigger] pieces@[i]).moves@.len() == 0),
                forall|i: int| 0 <= i < position ==> (#[trigger] pieces@[i]).moves@.len() <= 56,
                black_moves@ == spec_side_moves(self.board_state, false, position as int),
                white_moves@ == spec_side_moves(self.board_state, true, position as int),
            decreases 64 - position,
        {
            let piece_value = self.board_state.squares[position];
            let white_piece = is_white_piece(piece_value);
            let piece_type = get_piece_type(piece_value);
            proof {
                lemma_piece_moves_len(self.board_state, piece_type, position as int);
            }
            let mut moves: Vec<PieceMove> = Vec::new();
            if piece_type != PieceType::Empty && piece_type != PieceType::King {
                moves = piece_moves_of(&self.board_state, piece_type, position as i8);
                let ghost pre_w = white_moves@;
                let ghost pre_b = black_moves@;
                let mut j: usize = 0;
                if white_piece {
                    while j < moves.len()
                        invariant
                            j <= moves@.len(),
                            white_moves@ == pre_w + moves@.subrange(0, j as int),
                            black_moves@ == pre_b,
                        decreases moves@.len() - j,
                    {
                        white_moves.push(moves[j]);
                        proof {
                            assert(white_moves@ =~= pre_w + moves@.subrange(0, j as int + 1));
                        }
                        j = j + 1;
                    }
                    proof {
                        assert(moves@.subrange(0, moves@.len() as int) =~= moves@);
                    }
                } else {
                    while j < moves.len()
                        invariant
                            j <= moves@.len(),
                            black_moves@ == pre_b + moves@.subrange(0, j as int),
                            white_moves@ == pre_w,
                        decreases moves@.len() - j,
                    {
                        black_moves.push(moves[j]);
                        proof {
                            assert(black_moves@ =~= pre_b + moves@.subrange(0, j as int + 1));
                        }
                        j = j + 1;
                    }
                    proof {
                        assert(moves@.subrange(0, moves@.len() as int) =~= moves@);
                    }
                }
            }
            pieces.push(BoardPiece::new(moves, position as i8, piece_value, white_piece));
            proof {
                assert(black_moves@ =~= spec_side_moves(
                    self.board_state,
                    false,
                    position as int + 1,
                ));
                assert(white_moves@ =~= spec_side_moves(
                    self.board_state,
                    true,
                    position as int + 1,
                ));
            }
            position = position + 1;
        }
        (black_moves, white_moves, pieces)
    }
}


/// The concatenated pseudo-legal moves of one color's non-king pieces,
/// in square order.
pub open spec fn spec_side_moves(s: BoardState, white: bool, n: int) -> Seq<PieceMove>
    decreases n,
{
    if n <= 0 {
        Seq::<PieceMove>::empty()
    } else {
        spec_side_moves(s, white, n - 1) + (if spec_piece_type(s.squares@[n - 1])
            != PieceType::Empty && spec_piece_type(s.squares@[n - 1]) != PieceType::King
            && spec_is_white(s.squares@[n - 1]) == white {
            spec_piece_moves(s, spec_piece_type(s.squares@[n - 1]), n - 1)
        } else {
            Seq::<PieceMove>::empty()
        })
    }
}

/// The side collections read only what the attack scan reads.
pub proof fn lemma_side_moves_eq(a: BoardState, b: BoardState, white: bool, n: int)
    requires
        spec_attack_relevant_eq(a, b),
    ensures
        spec_side_moves(a, white, n) == spec_side_moves(b, white, n),
    decreases n,
{
    if n > 0 {
        lemma_side_moves_eq(a, b, white, n - 1);
        lemma_piece_moves_eq(a, b, spec_piece_type(a.squares@[n - 1]), n - 1);
    }
}

/// The occupancy count reads the squares alone.
pub proof fn lemma_occupied_count_eq(a: BoardState, b: BoardState, n: int)
    requires
        a.squares@ == b.squares@,
    ensures
        spec_occupied_count(a, n) == spec_occupied_count(b, n),
    decreases n,
{
    if n > 0 {
        lemma_occupied_count_eq(a, b, n - 1);
    }
}

/// The first `n` moves of `a` that do not also stand in `b`, in order.
pub open spec fn spec_not_in(a: Seq<PieceMove>, b: Seq<PieceMove>, n: int) -> Seq<PieceMove>
    decreases n,
{
    if n <= 0 {
        Seq::<PieceMove>::empty()
    } else {
        spec_not_in(a, b, n - 1) + (if b.contains(a[n - 1]) {
            Seq::<PieceMove>::empty()
        } else {
            seq![a[n - 1]]
        })
    }
}

/// The moves of `a` that do not also stand in `b`.
fn moves_not_in(a: &Vec<PieceMove>, b: &Vec<PieceMove>) -> (r: Vec<PieceMove>)
    ensures
        r@ == spec_not_in(a@, b@, a@.len() as int),
        forall|j: int| 0 <= j < r@.len() ==> a@.contains(#[trigger] r@[j]),
        r@.len() <= a@.len(),
{
    let mut r: Vec<PieceMove> = Vec::new();
    let mut i: usize = 0;
    while i < a.len()
        invariant
            i <= a@.len(),
            r@.len() <= i,
            r@ == spec_not_in(a@, b@, i as int),
            forall|j: int| 0 <= j < r@.len() ==> a@.contains(#[trigger] r@[j]),
        decreases a@.len() - i,
    {
        let m = a[i];
        let mut inside = false;
        let mut k: usize = 0;
        while k < b.len()
            invariant
                k <= b@.len(),
                inside == (exists|kk: int| 0 <= kk < k && #[trigger] b@[kk] == m),
            decreases b@.len() - k,
        {
            if b[k] == m {
                inside = true;
            }
            k = k + 1;
        }
        proof {
            assert(inside == b@.contains(m));
        }
        if !inside {
            r.push(m);
            proof {
                assert(r@ =~= spec_not_in(a@, b@, i as int) + seq![m]);
            }
        } else {
            proof {
                assert(r@ =~= spec_not_in(a@, b@, i as int) + Seq::<PieceMove>::empty());
            }
        }
        i = i + 1;
    }
    r
}

impl MoveGenerator {
    /// Give the two kings their raw moves, each computed against the
    /// other side's pseudo-legal moves; squares both kings could step on
    /// are removed from both lists so the kings can never stand beside
    /// each other.
    fn get_king_available_moves(
        &self,
        black_moves: &Vec<PieceMove>,
        board_pieces: &mut Vec<BoardPiece>,
        white_moves: &Vec<PieceMove>,
    )
        requires
            self.board_state.wf(),
            old(board_pieces)@.len() == 64,
        ensures
            final(board_pieces)@.len() == 64,
            forall|i: int|
                0 <= i < 64 && i != self.board_state.white_king_position as int && i
                    != self.board_state.black_king_position as int ==> #[trigger] final(board_pieces)@[i] == old(board_pieces)@[i],
            forall|i: int|
                0 <= i < 64 ==> (#[trigger] final(board_pieces)@[i]).position == old(board_pieces)@[i].position && final(board_pieces)@[i].value == old(board_pieces)@[i].value
                    && final(board_pieces)@[i].white == old(board_pieces)@[i].white,
            forall|i: int|
                0 <= i < 64 ==> (#[trigger] final(board_pieces)@[i]).moves@.len() <= 56 || final(board_pieces)@[i].moves@.len() <= old(board_pieces)@[i].moves@.len(),
            forall|i: int|
                0 <= i < 64 && old(board_pieces)@[i].moves@.len() <= 56 ==> (#[trigger] final(board_pieces)@[i]).moves@.len() <= 56,
            self.board_state.white_king_position != self.board_state.black_king_position
                ==> final(board_pieces)@[self.board_state.white_king_position as int].moves@
                == spec_not_in(
                spec_king_raw_moves(
                    self.board_state,
                    black_moves@,
                    self.board_state.white_king_position as int,
                ),
                spec_king_raw_moves(
                    self.board_state,
                    white_moves@,
                    self.board_state.black_king_position as int,
                ),
                spec_king_raw_moves(
                    self.board_state,
                    black_moves@,
                    self.board_state.white_king_position as int,
                ).len() as int,
            ),
            final(board_pieces)@[self.board_state.black_king_position as int].moves@
                == spec_not_in(
                spec_king_raw_moves(
                    self.board_state,
                    white_moves@,
                    self.board_state.black_king_position as int,
                ),
                spec_king_raw_moves(
                    self.board_state,
                    black_moves@,
                    self.board_state.white_king_position as int,
                ),
                spec_king_raw_moves(
                    self.board_state,
                    white_moves@,
                    self.board_state.black_king_position as int,
                ).len() as int,
            ),
    {
        let white_king_position = self.board_state.get_white_king_position();
        let black_king_position = self.board_state.get_black_king_position();
        let white_king_moves = king_raw_moves_of(
            &self.board_state,
            black_moves,
            white_king_position,
        );
        let black_king_moves = king_raw_moves_of(
            &self.board_state,
            white_moves,
            black_king_position,
        );
        let white_retained = moves_not_in(&white_king_moves, &black_king_moves);
        let black_retained = moves_not_in(&black_king_moves, &white_king_moves);
        let white_entry = &mut board_pieces[white_king_position as usize];
        white_entry.set_moves(white_retained);
        let black_entry = &mut board_pieces[black_king_position as usize];
        black_entry.set_moves(black_retained);
    }

    /// Produce, for every square, the piece standing there and its legal
    /// moves (empty lists for the opponent's pieces).  When only the two
    /// kings remain, or when the side to move has no legal move, the
    /// game's end is recorded on the board.
    #[verifier::rlimit(100)]
    pub fn get_available_moves(&mut self, board: &mut Board) -> (pieces: Vec<BoardPiece>)
        requires
            old(self).board_state.inv(),
            old(board).inv(),
            old(self).board_state.spec_eq_states(old(board).state),
        ensures
            *final(self) == *old(self),
            pieces@.len() == 64,
            forall|i: int| 0 <= i < 64 ==> (#[trigger] pieces@[i]).moves@.len() <= 56,
            forall|i: int, j: int|
                0 <= i < 64 && (#[trigger] pieces@[i]).value != EMPTY_PIECE && pieces@[i].white
                    == old(board).state.white_move && 0 <= j < pieces@[i].moves@.len()
                    ==> spec_king_safe_with(
                    old(board).state,
                    spec_adjusted_move(#[trigger] pieces@[i].moves@[j], pieces@[i].value),
                    if spec_piece_type(pieces@[i].value) == PieceType::King {
                        pieces@[i].moves@[j].to_position
                    } else {
                        if old(board).state.white_move {
                            old(board).state.white_king_position
                        } else {
                            old(board).state.black_king_position
                        }
                    },
                ),
            forall|i: int|
                0 <= i < 64 ==> (#[trigger] pieces@[i]).position == i && pieces@[i].value == old(board).state.squares@[i] && pieces@[i].white == spec_is_white(
                    old(board).state.squares@[i],
                ),
            forall|i: int|
                0 <= i < 64 && (#[trigger] pieces@[i]).value != EMPTY_PIECE && pieces@[i].white
                    == old(board).state.white_move && spec_piece_type(pieces@[i].value)
                    != PieceType::King && i != old(board).state.white_king_position as int && i
                    != old(board).state.black_king_position as int ==> pieces@[i].moves@
                    == spec_kept_moves(
                    old(board).state,
                    spec_piece_moves(old(board).state, spec_piece_type(pieces@[i].value), i),
                    spec_piece_moves(
                        old(board).state,
                        spec_piece_type(pieces@[i].value),
                        i,
                    ).len() as int,
                    pieces@[i].value,
                    false,
                    if old(board).state.white_move {
                        old(board).state.white_king_position
                    } else {
                        old(board).state.black_king_position
                    },
                ),
            forall|i: int|
                0 <= i < 64 && ((#[trigger] pieces@[i]).value == EMPTY_PIECE || pieces@[i].white
                    != old(board).state.white_move) && spec_piece_type(pieces@[i].value)
                    != PieceType::King && i != old(board).state.white_king_position as int && i
                    != old(board).state.black_king_position as int ==> pieces@[i].moves@
                    == spec_piece_moves(old(board).state, spec_piece_type(pieces@[i].value), i),
            final(board).inv(),
            final(board).state.spec_eq_states_except_winner(old(board).state),
            final(board).state_history@ == old(board).state_history@,
            (exists|i: int|
                0 <= i < 64 && (#[trigger] pieces@[i]).value != EMPTY_PIECE && pieces@[i].white
                    == old(board).state.white_move && pieces@[i].moves@.len() > 0) ==> final(board).state.winner == old(board).state.winner,
            !(exists|i: int|
                0 <= i < 64 && (#[trigger] pieces@[i]).value != EMPTY_PIECE && pieces@[i].white
                    == old(board).state.white_move && pieces@[i].moves@.len() > 0) ==> (final(board).state.winner == crate::board::spec_winner_code(false, old(board).state.white_move)
                || final(board).state.winner == crate::board::spec_winner_code(
                true,
                old(board).state.white_move,
            )),
            spec_two_kings_draw(old(board).state) ==> final(board).state.winner == 24,
    {
        let (black_moves, white_moves, mut pieces) = self.generate_pieces_moves();
        let piece_count = count_occupied_squares(&self.board_state);
        proof {
            lemma_occupied_count_eq(self.board_state, old(board).state, 64);
            lemma_side_moves_eq(self.board_state, old(board).state, false, 64);
            lemma_side_moves_eq(self.board_state, old(board).state, true, 64);
        }
        proof {
            assert forall|i: int| 0 <= i < 64 implies #[trigger] spec_piece_moves(
                self.board_state,
                spec_piece_type(self.board_state.squares@[i]),
                i,
            ) == spec_piece_moves(
                old(board).state,
                spec_piece_type(old(board).state.squares@[i]),
                i,
            ) by {
                lemma_piece_moves_eq(
                    self.board_state,
                    old(board).state,
                    spec_piece_type(self.board_state.squares@[i]),
                    i,
                );
            }
        }
        let ghost gen_pieces = pieces@;
        let ghost kp = if old(board).state.white_move {
            old(board).state.white_king_position as int
        } else {
            old(board).state.black_king_position as int
        };
        if piece_count == 2 && black_moves.len() == 0 && white_moves.len() == 0 {
            // only the two kings remain: the game ends in a draw
            let wm = board.is_white_move();
            board.set_winner(false, wm);
            proof {
                assert forall|i: int|
                    0 <= i < 64 && (#[trigger] pieces@[i]).value != EMPTY_PIECE && pieces@[i].white
                        == old(board).state.white_move && spec_piece_type(pieces@[i].value)
                        != PieceType::King && i != old(board).state.white_king_position as int && i
                        != old(board).state.black_king_position as int implies pieces@[i].moves@
                    == spec_kept_moves(
                    old(board).state,
                    spec_piece_moves(old(board).state, spec_piece_type(pieces@[i].value), i),
                    spec_piece_moves(
                        old(board).state,
                        spec_piece_type(pieces@[i].value),
                        i,
                    ).len() as int,
                    pieces@[i].value,
                    false,
                    kp as i8,
                ) by {
                    assert(pieces@[i].moves@.len() == 0);
                    assert(spec_piece_moves(
                        old(board).state,
                        spec_piece_type(pieces@[i].value),
                        i,
                    ).len() == 0);
                    assert(pieces@[i].moves@ =~= spec_kept_moves(
                        old(board).state,
                        spec_piece_moves(old(board).state, spec_piece_type(pieces@[i].value), i),
                        0,
                        pieces@[i].value,
                        false,
                        kp as i8,
                    ));
                }
                assert forall|i: int|
                    0 <= i < 64 && ((#[trigger] pieces@[i]).value == EMPTY_PIECE || pieces@[i].white
                        != old(board).state.white_move) && spec_piece_type(pieces@[i].value)
                        != PieceType::King && i != old(board).state.white_king_position as int && i
                        != old(board).state.black_king_position as int implies pieces@[i].moves@
                    == spec_piece_moves(
                    old(board).state,
                    spec_piece_type(pieces@[i].value),
                    i,
                ) by {
                    assert(pieces@[i].moves@ == spec_piece_moves(
                        self.board_state,
                        spec_piece_type(self.board_state.squares@[i]),
                        i,
                    ));
                }
            }
        } else {
            let ghost board_before = board.state;
            self.get_king_available_moves(&black_moves, &mut pieces, &white_moves);
            let ghost king_pieces = pieces@;
            self.remove_locked_and_invalid_moves(&mut pieces, board);
            proof {
                assert forall|i: int|
                    0 <= i < 64 && (#[trigger] pieces@[i]).value != EMPTY_PIECE && pieces@[i].white
                        == old(board).state.white_move && spec_piece_type(pieces@[i].value)
                        != PieceType::King && i != old(board).state.white_king_position as int && i
                        != old(board).state.black_king_position as int implies pieces@[i].moves@
                    == spec_kept_moves(
                    old(board).state,
                    spec_piece_moves(old(board).state, spec_piece_type(pieces@[i].value), i),
                    spec_piece_moves(
                        old(board).state,
                        spec_piece_type(pieces@[i].value),
                        i,
                    ).len() as int,
                    pieces@[i].value,
                    false,
                    kp as i8,
                ) by {
                    assert(king_pieces[i] == gen_pieces[i]);
                    assert(king_pieces[i].moves@ == spec_piece_moves(
                        old(board).state,
                        spec_piece_type(pieces@[i].value),
                        i,
                    ));
                }
                assert forall|i: int|
                    0 <= i < 64 && ((#[trigger] pieces@[i]).value == EMPTY_PIECE || pieces@[i].white
                        != old(board).state.white_move) && spec_piece_type(pieces@[i].value)
                        != PieceType::King && i != old(board).state.white_king_position as int && i
                        != old(board).state.black_king_position as int implies pieces@[i].moves@
                    == spec_piece_moves(
                    old(board).state,
                    spec_piece_type(pieces@[i].value),
                    i,
                ) by {
                    assert(king_pieces[i] == gen_pieces[i]);
                    assert(pieces@[i].moves@ == king_pieces[i].moves@);
                }
            }
        }
        pieces
    }
}

/// A ray yields at most its remaining steps.
pub proof fn lemma_slide_from_len(s: BoardState, pos: int, offset: SquareOffset, i: int)
    ensures
        spec_slide_from(s, pos, offset, i).len() <= (if i < 7 {
            7 - i
        } else {
            0int
        }),
    decreases 7 - i,
{
    if i < 7 {
        lemma_slide_from_len(s, pos, offset, i + 1);
    }
}

/// The knight has at most one move per candidate square.
pub proof fn lemma_knight_partial_len(s: BoardState, pos: int, j: int)
    ensures
        spec_knight_partial(s, pos, j).len() <= (if j >= 0 {
            j
        } else {
            0int
        }),
    decreases j,
{
    if j > 0 {
        lemma_knight_partial_len(s, pos, j - 1);
    }
}

/// A pawn yields at most five pseudo-legal moves.
pub proof fn lemma_pawn_moves_len(s: BoardState, position: int)
    ensures
        spec_pawn_moves(s, position).len() <= 5,
{
}

/// No piece type yields more than 56 pseudo-legal moves.
#[verifier::rlimit(100)]
pub proof fn lemma_piece_moves_len(s: BoardState, piece_type: PieceType, position: int)
    ensures
        spec_piece_moves(s, piece_type, position).len() <= 56,
{
    lemma_knight_partial_len(s, position, 8);
    lemma_pawn_moves_len(s, position);
    lemma_slide_from_len(s, position, SquareOffset::TopLeft, 0);
    lemma_slide_from_len(s, position, SquareOffset::TopRight, 0);
    lemma_slide_from_len(s, position, SquareOffset::BottomLeft, 0);
    lemma_slide_from_len(s, position, SquareOffset::BottomRight, 0);
    lemma_slide_from_len(s, position, SquareOffset::LineAbove, 0);
    lemma_slide_from_len(s, position, SquareOffset::LineBelow, 0);
    lemma_slide_from_len(s, position, SquareOffset::Left, 0);
    lemma_slide_from_len(s, position, SquareOffset::Right, 0);
}

/// The move as the legality filter actually tries it: a promotion
/// candidate is made with the mover's queen as placeholder promotion
/// piece (legality does not depend on the choice).
pub open spec fn spec_adjusted_move(m: PieceMove, piece_value: i8) -> PieceMove {
    if m.is_promotion {
        PieceMove {
            promotion_type: (if spec_is_white(piece_value) {
                21i8
            } else {
                13i8
            }),
            ..m
        }
    } else {
        m
    }
}

/// What `make_move` promises of the position after a move: the squares,
/// the side to move, both en-passant targets, the king-moved flags and
/// the four castling rights all follow the move.
pub open spec fn spec_post_make(pre: BoardState, m: PieceMove, post: BoardState) -> bool {
    &&& post.squares@ == crate::board::spec_make_squares(pre, m)
    &&& post.white_move == !pre.white_move
    &&& post.white_en_passant == crate::board::spec_push_ep_white(
        crate::board::spec_effective_piece(pre, m),
        m.from_position,
        m.to_position,
    )
    &&& post.black_en_passant == crate::board::spec_push_ep_black(
        crate::board::spec_effective_piece(pre, m),
        m.from_position,
        m.to_position,
    )
    &&& post.white_king_moved == crate::board::spec_make_white_king_moved(pre, m)
    &&& post.black_king_moved == crate::board::spec_make_black_king_moved(pre, m)
    &&& post.white_able_to_king_side_castle == crate::board::spec_make_wks(pre, m)
    &&& post.white_able_to_queen_side_castle == crate::board::spec_make_wqs(pre, m)
    &&& post.black_able_to_king_side_castle == crate::board::spec_make_bks(pre, m)
    &&& post.black_able_to_queen_side_castle == crate::board::spec_make_bqs(pre, m)
}

/// Any two positions that `make_move`'s contract allows for the same
/// move agree on everything the attack scan reads.
pub proof fn lemma_post_make_relevant_eq(pre: BoardState, m: PieceMove, p1: BoardState, p2: BoardState)
    requires
        spec_post_make(pre, m, p1),
        spec_post_make(pre, m, p2),
    ensures
        spec_attack_relevant_eq(p1, p2),
{
}

/// The legality filter keeps a move exactly when make accepts it (with
/// the filter's placeholder promotion piece) and the resulting position
/// leaves the target square unattacked.
pub open spec fn spec_move_kept(
    pre: BoardState,
    m: PieceMove,
    piece_value: i8,
    is_king: bool,
    king_position: i8,
) -> bool {
    let adj = spec_adjusted_move(m, piece_value);
    let target = if is_king {
        m.to_position
    } else {
        king_position
    };
    &&& crate::board::spec_make_error(pre, adj) is None
    &&& spec_king_safe_after(pre, adj, target)
}

/// The king-safety fact the legality filter checks before keeping a
/// move: some position that `make_move`'s contract allows for this move
/// has no enemy piece attacking the target square.
pub open spec fn spec_king_safe_after(pre: BoardState, m: PieceMove, target: i8) -> bool {
    exists|post: BoardState|
        #[trigger] spec_post_make(pre, m, post) && !spec_attacked_by_piece(post, target)
}

/// King safety up to observable equality of the starting position.
pub open spec fn spec_king_safe_with(pre: BoardState, m: PieceMove, target: i8) -> bool {
    exists|p2: BoardState|
        #[trigger] p2.spec_eq_states(pre) && spec_king_safe_after(p2, m, target)
}

/// King safety carries across observably equal starting positions.
pub proof fn lemma_king_safe_with_eq(pre1: BoardState, pre2: BoardState, m: PieceMove, target: i8)
    requires
        spec_king_safe_with(pre1, m, target),
        pre1.spec_eq_states(pre2),
    ensures
        spec_king_safe_with(pre2, m, target),
{
    let p2 = choose|p2: BoardState|
        #[trigger] p2.spec_eq_states(pre1) && spec_king_safe_after(p2, m, target);
    assert(p2.spec_eq_states(pre2));
}

/// Two positions agree on everything the attack scan reads: the
/// squares, the side to move, both en-passant targets, the king-moved
/// flags and the four castling rights.
pub open spec fn spec_attack_relevant_eq(a: BoardState, b: BoardState) -> bool {
    &&& a.squares@ == b.squares@
    &&& a.white_move == b.white_move
    &&& a.white_en_passant == b.white_en_passant
    &&& a.black_en_passant == b.black_en_passant
    &&& a.white_king_moved == b.white_king_moved
    &&& a.black_king_moved == b.black_king_moved
    &&& a.white_able_to_king_side_castle == b.white_able_to_king_side_castle
    &&& a.white_able_to_queen_side_castle == b.white_able_to_queen_side_castle
    &&& a.black_able_to_king_side_castle == b.black_able_to_king_side_castle
    &&& a.black_able_to_queen_side_castle == b.black_able_to_queen_side_castle
}

/// Sliding rays read the squares alone.
pub proof fn lemma_slide_from_eq(a: BoardState, b: BoardState, pos: int, offset: SquareOffset, i: int)
    requires
        spec_attack_relevant_eq(a, b),
    ensures
        spec_slide_from(a, pos, offset, i) == spec_slide_from(b, pos, offset, i),
    decreases 7 - i,
{
    if i < 7 {
        lemma_slide_from_eq(a, b, pos, offset, i + 1);
    }
}

/// Knight candidates read the squares alone.
pub proof fn lemma_knight_partial_eq(a: BoardState, b: BoardState, pos: int, j: int)
    requires
        spec_attack_relevant_eq(a, b),
    ensures
        spec_knight_partial(a, pos, j) == spec_knight_partial(b, pos, j),
    decreases j,
{
    if j > 0 {
        lemma_knight_partial_eq(a, b, pos, j - 1);
    }
}

/// Pawn moves read the squares and the en-passant targets alone.
pub proof fn lemma_pawn_moves_eq(a: BoardState, b: BoardState, pos: int)
    requires
        spec_attack_relevant_eq(a, b),
    ensures
        spec_pawn_moves(a, pos) == spec_pawn_moves(b, pos),
{
    assert(spec_pawn_regular(a, pos, spec_is_white(a.squares@[pos])) =~= spec_pawn_regular(
        b,
        pos,
        spec_is_white(b.squares@[pos]),
    ));
    assert(spec_pawn_capture(a, pos, spec_is_white(a.squares@[pos]), true) =~= spec_pawn_capture(
        b,
        pos,
        spec_is_white(b.squares@[pos]),
        true,
    ));
    assert(spec_pawn_capture(a, pos, spec_is_white(a.squares@[pos]), false) =~= spec_pawn_capture(
        b,
        pos,
        spec_is_white(b.squares@[pos]),
        false,
    ));
    assert(spec_pawn_ep(a, pos, spec_is_white(a.squares@[pos])) =~= spec_pawn_ep(
        b,
        pos,
        spec_is_white(b.squares@[pos]),
    ));
    assert(spec_pawn_moves(a, pos) =~= spec_pawn_moves(b, pos));
}

/// Per-type pseudo-legal moves read the squares and the en-passant
/// targets alone.
pub proof fn lemma_piece_moves_eq(a: BoardState, b: BoardState, t: PieceType, pos: int)
    requires
        spec_attack_relevant_eq(a, b),
    ensures
        spec_piece_moves(a, t, pos) == spec_piece_moves(b, t, pos),
{
    lemma_knight_partial_eq(a, b, pos, 8);
    lemma_pawn_moves_eq(a, b, pos);
    lemma_slide_from_eq(a, b, pos, SquareOffset::TopLeft, 0);
    lemma_slide_from_eq(a, b, pos, SquareOffset::TopRight, 0);
    lemma_slide_from_eq(a, b, pos, SquareOffset::BottomLeft, 0);
    lemma_slide_from_eq(a, b, pos, SquareOffset::BottomRight, 0);
    lemma_slide_from_eq(a, b, pos, SquareOffset::LineAbove, 0);
    lemma_slide_from_eq(a, b, pos, SquareOffset::LineBelow, 0);
    lemma_slide_from_eq(a, b, pos, SquareOffset::Left, 0);
    lemma_slide_from_eq(a, b, pos, SquareOffset::Right, 0);
}

/// Path emptiness reads the squares alone.
pub proof fn lemma_path_clear_eq(a: BoardState, b: BoardState, start: int, end: int, step: int)
    requires
        spec_attack_relevant_eq(a, b),
    ensures
        spec_path_clear(a, start, end, step) == spec_path_clear(b, start, end, step),
    decreases
            (if step >= 0 {
                end - start
            } else {
                start - end
            }),
{
    if start != end && ((step == 1 && start < end) || (step == -1 && start > end)) {
        lemma_path_clear_eq(a, b, start + step, end, step);
    }
}

/// Castle candidates read the squares, the king-moved flags and the
/// castling rights alone.
pub proof fn lemma_castle_moves_eq(
    a: BoardState,
    b: BoardState,
    king_piece: i8,
    opponent_moves: Seq<PieceMove>,
    kp: int,
)
    requires
        spec_attack_relevant_eq(a, b),
    ensures
        spec_castle_moves(a, king_piece, opponent_moves, kp) == spec_castle_moves(
            b,
            king_piece,
            opponent_moves,
            kp,
        ),
{
    let white = spec_is_white(king_piece);
    let qs_rook: int = if white {
        56
    } else {
        0
    };
    let ks_rook: int = if white {
        63
    } else {
        7
    };
    lemma_path_clear_eq(a, b, kp - 1, qs_rook, -1);
    lemma_path_clear_eq(a, b, kp + 1, ks_rook, 1);
    assert(spec_try_castle(a, kp, king_piece, false, kp - 2, opponent_moves) =~= spec_try_castle(
        b,
        kp,
        king_piece,
        false,
        kp - 2,
        opponent_moves,
    ));
    assert(spec_try_castle(a, kp, king_piece, true, kp + 2, opponent_moves) =~= spec_try_castle(
        b,
        kp,
        king_piece,
        true,
        kp + 2,
        opponent_moves,
    ));
    assert(spec_castle_moves(a, king_piece, opponent_moves, kp) =~= spec_castle_moves(
        b,
        king_piece,
        opponent_moves,
        kp,
    ));
}

/// The king's raw moves read the squares, the king-moved flags and the
/// castling rights alone.
pub proof fn lemma_king_raw_moves_eq(
    a: BoardState,
    b: BoardState,
    opponent_moves: Seq<PieceMove>,
    kp: int,
)
    requires
        spec_attack_relevant_eq(a, b),
    ensures
        spec_king_raw_moves(a, opponent_moves, kp) == spec_king_raw_moves(b, opponent_moves, kp),
{
    let king = a.squares@[kp];
    lemma_castle_moves_eq(a, b, king, opponent_moves, kp);
    assert forall|cand: int|
        cand == kp - 1 || cand == kp + 1 || cand == kp - 9 || cand == kp - 8 || cand == kp - 7
            || cand == kp + 7 || cand == kp + 8 || cand == kp + 9 implies #[trigger] spec_king_adjacent_part(
        a,
        opponent_moves,
        kp,
        cand,
        king,
    ) == spec_king_adjacent_part(b, opponent_moves, kp, cand, king) by {
        let adj = crate::move_generator_helper::spec_adjacent_position(kp, cand);
        if 0 <= adj < 64 {
            assert(spec_king_step(a, opponent_moves, adj, kp, king) =~= spec_king_step(
                b,
                opponent_moves,
                adj,
                kp,
                king,
            ));
        }
    }
    assert(spec_king_raw_moves(a, opponent_moves, kp) =~= spec_king_raw_moves(
        b,
        opponent_moves,
        kp,
    ));
}

/// Whether a square is attacked reads only the fields of
/// `spec_attack_relevant_eq`.
pub proof fn lemma_attacked_by_piece_eq(a: BoardState, b: BoardState, target: i8)
    requires
        spec_attack_relevant_eq(a, b),
    ensures
        spec_attacked_by_piece(a, target) == spec_attacked_by_piece(b, target),
{
    assert forall|p: int| 0 <= p < 64 implies #[trigger] spec_attack_moves(a, p)
        == spec_attack_moves(b, p) by {
        if spec_piece_type(a.squares@[p]) == PieceType::King {
            lemma_king_raw_moves_eq(a, b, Seq::<PieceMove>::empty(), p);
        } else {
            lemma_piece_moves_eq(a, b, spec_piece_type(a.squares@[p]), p);
        }
    }
    if spec_attacked_by_piece(a, target) {
        let p = choose|p: int|
            0 <= p < 64 && #[trigger] a.squares@[p] != EMPTY_PIECE && spec_is_white(a.squares@[p])
                == a.white_move && spec_attacks_to(spec_attack_moves(a, p), target);
        assert(spec_attacks_to(spec_attack_moves(b, p), target));
    }
    if spec_attacked_by_piece(b, target) {
        let p = choose|p: int|
            0 <= p < 64 && #[trigger] b.squares@[p] != EMPTY_PIECE && spec_is_white(b.squares@[p])
                == b.white_move && spec_attacks_to(spec_attack_moves(b, p), target);
        assert(spec_attacks_to(spec_attack_moves(a, p), target));
    }
}

/// The moves of a candidate list (its first `n`) the legality filter
/// keeps, in order.
pub open spec fn spec_kept_moves(
    pre: BoardState,
    ms: Seq<PieceMove>,
    n: int,
    piece_value: i8,
    is_king: bool,
    king_position: i8,
) -> Seq<PieceMove>
    decreases n,
{
    if n <= 0 {
        Seq::<PieceMove>::empty()
    } else {
        spec_kept_moves(pre, ms, n - 1, piece_value, is_king, king_position) + (if spec_move_kept(
            pre,
            ms[n - 1],
            piece_value,
            is_king,
            king_position,
        ) {
            seq![ms[n - 1]]
        } else {
            Seq::<PieceMove>::empty()
        })
    }
}

/// Whether the filter keeps a move reads only the observable position.
pub proof fn lemma_move_kept_eq(
    a: BoardState,
    b: BoardState,
    m: PieceMove,
    piece_value: i8,
    is_king: bool,
    king_position: i8,
)
    requires
        a.spec_eq_states(b),
    ensures
        spec_move_kept(a, m, piece_value, is_king, king_position) == spec_move_kept(
            b,
            m,
            piece_value,
            is_king,
            king_position,
        ),
{
    let adj = spec_adjusted_move(m, piece_value);
    let target = if is_king {
        m.to_position
    } else {
        king_position
    };
    assert(crate::board::spec_make_error(a, adj) == crate::board::spec_make_error(b, adj));
    assert(crate::board::spec_make_squares(a, adj) == crate::board::spec_make_squares(b, adj));
    if spec_king_safe_after(a, adj, target) {
        let post = choose|post: BoardState|
            #[trigger] spec_post_make(a, adj, post) && !spec_attacked_by_piece(post, target);
        assert(spec_post_make(b, adj, post));
    }
    if spec_king_safe_after(b, adj, target) {
        let post = choose|post: BoardState|
            #[trigger] spec_post_make(b, adj, post) && !spec_attacked_by_piece(post, target);
        assert(spec_post_make(a, adj, post));
    }
}

/// The whole kept-move list reads only the observable position.
pub proof fn lemma_kept_moves_eq(
    a: BoardState,
    b: BoardState,
    ms: Seq<PieceMove>,
    n: int,
    piece_value: i8,
    is_king: bool,
    king_position: i8,
)
    requires
        a.spec_eq_states(b),
    ensures
        spec_kept_moves(a, ms, n, piece_value, is_king, king_position) == spec_kept_moves(
            b,
            ms,
            n,
            piece_value,
            is_king,
            king_position,
        ),
    decreases n,
{
    if n > 0 {
        lemma_kept_moves_eq(a, b, ms, n - 1, piece_value, is_king, king_position);
        lemma_move_kept_eq(a, b, ms[n - 1], piece_value, is_king, king_position);
    }
}


/// The generator declares an immediate draw exactly here: two pieces on
/// the board and no non-king pseudo-legal move for either color.
pub open spec fn spec_two_kings_draw(s: BoardState) -> bool {
    &&& spec_occupied_count(s, 64) == 2
    &&& spec_side_moves(s, false, 64).len() == 0
    &&& spec_side_moves(s, true, 64).len() == 0
}

/// How many of the first `n` squares are occupied.
pub open spec fn spec_occupied_count(s: BoardState, n: int) -> int
    decreases n,
{
    if n <= 0 {
        0
    } else {
        spec_occupied_count(s, n - 1) + (if s.squares@[n - 1] != EMPTY_PIECE {
            1int
        } else {
            0int
        })
    }
}

/// Count the occupied squares of a position.
pub fn count_occupied_squares(state: &BoardState) -> (count: u32)
    requires
        state.wf(),
    ensures
        count == spec_occupied_count(*state, 64),
{
    let mut count: u32 = 0;
    let mut i: usize = 0;
    while i < 64
        invariant
            i <= 64,
            state.wf(),
            count == spec_occupied_count(*state, i as int),
            count <= i,
        decreases 64 - i,
    {
        if state.squares[i] != EMPTY_PIECE {
            count = count + 1;
        }
        i = i + 1;
    }
    count
}

} // verus!
