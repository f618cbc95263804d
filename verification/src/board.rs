//! The board: the current position plus the history stack that makes
//! every move reversible.  `make_move` validates, pushes the current
//! state and applies the move; `undo_last_move` restores the pushed
//! state verbatim.

use vstd::prelude::*;

use crate::board_state::{
    BoardState, BLACK_KING_ROOK_POS, BLACK_QUEEN_ROOK_POS, WHITE_KING_ROOK_POS,
    WHITE_QUEEN_ROOK_POS,
};
use crate::moves::PieceMove;
use crate::pieces::{
    get_piece_type, is_white_piece, spec_is_white, spec_piece_type, PieceType, EMPTY_PIECE,
};

verus! {

/// The piece that actually lands on the destination square: the chosen
/// promotion piece for a promotion, otherwise the piece that stood on
/// the origin.
pub open spec fn spec_effective_piece(s: BoardState, m: PieceMove) -> i8 {
    let moving = s.spec_piece_at(m.from_position);
    if spec_is_ep_capture(s, moving, m.to_position) {
        moving
    } else if m.is_promotion {
        m.promotion_type
    } else {
        moving
    }
}

/// A pawn move to the side's en-passant target square.
pub open spec fn spec_is_ep_capture(s: BoardState, piece: i8, to: i8) -> bool {
    &&& spec_piece_type(piece) == PieceType::Pawn
    &&& {
        let ep = if spec_is_white(piece) {
            s.black_en_passant
        } else {
            s.white_en_passant
        };
        ep != -1 && to == ep
    }
}

/// The square the captured pawn of an en-passant capture stands on: one
/// rank behind the target square, from the mover's point of view.
pub open spec fn spec_ep_cap_square(s: BoardState, white: bool) -> int {
    if white {
        s.black_en_passant + 8
    } else {
        s.white_en_passant - 8
    }
}

/// A king move of two files by a king that has not moved: the castle
/// rook co-move applies.
pub open spec fn spec_castle_applies(s: BoardState, moving: i8, from: int, to: int) -> bool {
    &&& spec_piece_type(moving) == PieceType::King
    &&& (from - to == 2 || to - from == 2)
    &&& !(if spec_is_white(moving) {
        s.white_king_moved
    } else {
        s.black_king_moved
    })
}

pub open spec fn spec_rook_from(white: bool, from: int, to: int) -> int {
    if from > to {
        if white {
            56int
        } else {
            0int
        }
    } else {
        if white {
            63int
        } else {
            7int
        }
    }
}

pub open spec fn spec_rook_to(from: int, to: int) -> int {
    if from > to {
        from - 1
    } else {
        from + 1
    }
}

/// The squares after a move is made: the en-passant victim or the castle
/// rook moves first, then the effective piece replaces whatever stood on
/// the destination and the origin is cleared.
pub open spec fn spec_make_squares(s: BoardState, m: PieceMove) -> Seq<i8> {
    let from = m.from_position as int;
    let to = m.to_position as int;
    let moving = s.squares@[from];
    let white = spec_is_white(moving);
    if spec_is_ep_capture(s, moving, m.to_position) {
        let cap = spec_ep_cap_square(s, white);
        let s1 = if 0 <= cap < 64 {
            s.squares@.update(cap, 0i8)
        } else {
            s.squares@
        };
        s1.update(to, moving).update(from, 0i8)
    } else if m.is_promotion {
        s.squares@.update(to, m.promotion_type).update(from, 0i8)
    } else if spec_castle_applies(s, moving, from, to) {
        let rf = spec_rook_from(white, from, to);
        let rt = spec_rook_to(from, to);
        let rook = s.squares@[rf];
        let s1 = if rook != EMPTY_PIECE && spec_piece_type(s.squares@[rt]) != PieceType::King {
            s.squares@.update(rt, rook).update(rf, 0i8)
        } else {
            s.squares@
        };
        s1.update(to, moving).update(from, 0i8)
    } else {
        s.squares@.update(to, moving).update(from, 0i8)
    }
}

/// Why a move is rejected, if it is: an off-board square, an empty
/// origin, a king on the destination, or a promotion whose chosen piece
/// is not one of the mover's four promotion options (the empty piece
/// included): only real promotion pieces ever reach the board.
pub open spec fn spec_make_error(s: BoardState, m: PieceMove) -> Option<&'static str> {
    if !(0 <= m.from_position < 64) || !(0 <= m.to_position < 64) {
        Some("Invalid board position")
    } else {
        let moving = s.squares@[m.from_position as int];
        let existing = s.squares@[m.to_position as int];
        if moving == EMPTY_PIECE {
            Some("No piece at the position")
        } else if spec_piece_type(existing) == PieceType::King {
            Some("Can't capture king at position")
        } else if !spec_is_ep_capture(s, moving, m.to_position) && m.is_promotion
            && !crate::pieces::spec_promotion_options(spec_is_white(moving)).contains(
            m.promotion_type,
        ) {
            Some("Pawn needs promotion type.")
        } else {
            None
        }
    }
}

#[derive(Debug)]
pub struct Board {
    pub state: BoardState,
    pub state_history: Vec<BoardState>,
}

impl Board {
    pub open spec fn inv(self) -> bool {
        &&& self.state.inv()
        &&& forall|i: int|
            0 <= i < self.state_history@.len() ==> #[trigger] self.state_history@[i].inv()
    }

    pub fn new() -> (board: Board)
        ensures
            board.inv(),
            board.state_history@.len() == 0,
            board.state.winner == 0,
            board.state.white_move,
            board.state.squares@ == Seq::new(64, |i: int| 0i8),
            board.state.white_captures@.len() == 0,
            board.state.black_captures@.len() == 0,
    {
        Board { state: BoardState::new(), state_history: Vec::new() }
    }

    pub fn get_state_reference(&self) -> (state: &BoardState)
        ensures
            state == &self.state,
    {
        &self.state
    }

    pub fn get_state_clone(&self) -> (state: BoardState)
        requires
            self.inv(),
        ensures
            state.spec_eq_states(self.state),
            state.inv(),
    {
        self.state.clone()
    }

    pub fn get_zobrist_hash(&self) -> (h: u64)
        ensures
            h == self.state.zobrist.hash,
    {
        self.state.get_zobrist_hash()
    }

    pub fn is_white_move(&self) -> (v: bool)
        ensures
            v == self.state.white_move,
    {
        self.state.is_white_move()
    }

    /// Set the winner code: the opponent of the side to move when it is
    /// checkmated, otherwise a draw.
    pub fn set_winner(&mut self, is_king_in_check: bool, is_white_move: bool)
        requires
            old(self).inv(),
        ensures
            final(self).inv(),
            final(self).state.winner == spec_winner_code(is_king_in_check, is_white_move),
            final(self).state == (BoardState {
                winner: final(self).state.winner,
                ..old(self).state
            }),
            final(self).state_history == old(self).state_history,
    {
        if is_king_in_check {
            if is_white_move {
                self.state.set_winner(8);
            } else {
                self.state.set_winner(16);
            }
        } else {
            self.state.set_winner(24);
        }
    }

    pub fn get_winner_fen(&self) -> (c: char)
        ensures
            c == spec_winner_fen(self.state.winner),
    {
        if self.state.winner == 16 {
            'w'
        } else if self.state.winner == 8 {
            'b'
        } else if self.state.winner == 24 {
            'd'
        } else {
            '-'
        }
    }

    pub fn is_game_finished(&self) -> (r: bool)
        ensures
            r == (spec_winner_fen(self.state.winner) != '-'),
    {
        self.get_winner_fen() != '-'
    }

    pub fn black_captures_to_fen(&self) -> (fens: Vec<String>)
        ensures
            fens@.len() == self.state.black_captures@.len(),
    {
        self.state.black_captures_to_fen()
    }

    pub fn white_captures_to_fen(&self) -> (fens: Vec<String>)
        ensures
            fens@.len() == self.state.white_captures@.len(),
    {
        self.state.white_captures_to_fen()
    }

    /// Load a position from FEN into a fresh state: capture lists,
    /// winner and history are reset.
    pub fn load_position(&mut self, fen_position: &str)
        requires
            old(self).inv(),
        ensures
            final(self).inv(),
            final(self).state_history == old(self).state_history,
            final(self).state.white_captures@.len() == 0,
            final(self).state.black_captures@.len() == 0,
            final(self).state.winner == 0,
    {
        let mut state = BoardState::new();
        state.load_position(fen_position);
        self.state = state;
    }

    /// Restore the position as it was before the last successful
    /// `make_move`; without history this is a no-op.
    pub fn undo_last_move(&mut self)
        requires
            old(self).inv(),
        ensures
            final(self).inv(),
            old(self).state_history@.len() == 0 ==> final(self).state == old(self).state
                && final(self).state_history@ == old(self).state_history@,
            old(self).state_history@.len() > 0 ==> final(self).state == old(self).state_history@.last() && final(self).state_history@ == old(self).state_history@.drop_last(),
    {
        if let Some(state) = self.state_history.pop() {
            self.state = state;
        }
    }

    /// Validate and make a move.  On an error the board is untouched; on
    /// success the previous state is pushed onto the history and the
    /// move is applied.
    pub fn make_move(&mut self, piece_move: &PieceMove) -> (r: Result<(), &'static str>)
        requires
            old(self).inv(),
        ensures
            final(self).inv(),
            r is Err <==> spec_make_error(old(self).state, *piece_move) is Some,
            r is Err ==> *final(self) == *old(self) && spec_make_error(old(self).state, *piece_move)
                == Some(r->Err_0),
            r is Ok ==> final(self).state_history@.len() == old(self).state_history@.len() + 1
                && final(self).state_history@.subrange(0, old(self).state_history@.len() as int)
                == old(self).state_history@ && final(self).state_history@.last().spec_eq_states(
                old(self).state,
            ),
            r is Ok ==> final(self).state.squares@ == spec_make_squares(
                old(self).state,
                *piece_move,
            ),
            r is Ok ==> final(self).state.white_move == !old(self).state.white_move,
            r is Ok ==> final(self).state.winner == old(self).state.winner,
            r is Ok ==> final(self).state.zobrist.keys == old(self).state.zobrist.keys,
            r is Ok ==> final(self).state.full_moves == (if !old(self).state.white_move && old(self).state.full_moves < 127 {
                old(self).state.full_moves + 1
            } else {
                old(self).state.full_moves as int
            }),
            r is Ok ==> final(self).state.white_en_passant == spec_push_ep_white(
                spec_effective_piece(old(self).state, *piece_move),
                piece_move.from_position,
                piece_move.to_position,
            ) && final(self).state.black_en_passant == spec_push_ep_black(
                spec_effective_piece(old(self).state, *piece_move),
                piece_move.from_position,
                piece_move.to_position,
            ),
            r is Ok ==> final(self).state.white_captures@ == spec_make_captures(
                old(self).state,
                *piece_move,
            ).0 && final(self).state.black_captures@ == spec_make_captures(
                old(self).state,
                *piece_move,
            ).1,
            r is Ok ==> final(self).state.white_able_to_king_side_castle == spec_make_wks(
                old(self).state,
                *piece_move,
            ) && final(self).state.white_able_to_queen_side_castle == spec_make_wqs(
                old(self).state,
                *piece_move,
            ) && final(self).state.black_able_to_king_side_castle == spec_make_bks(
                old(self).state,
                *piece_move,
            ) && final(self).state.black_able_to_queen_side_castle == spec_make_bqs(
                old(self).state,
                *piece_move,
            ),
            r is Ok ==> final(self).state.white_king_moved == (old(self).state.white_king_moved
                || (!spec_is_ep_capture(
                old(self).state,
                old(self).state.squares@[piece_move.from_position as int],
                piece_move.to_position,
            ) && !piece_move.is_promotion && spec_piece_type(
                old(self).state.squares@[piece_move.from_position as int],
            ) == PieceType::King && spec_is_white(
                old(self).state.squares@[piece_move.from_position as int],
            ))) && final(self).state.black_king_moved == (old(self).state.black_king_moved || (
            !spec_is_ep_capture(
                old(self).state,
                old(self).state.squares@[piece_move.from_position as int],
                piece_move.to_position,
            ) && !piece_move.is_promotion && spec_piece_type(
                old(self).state.squares@[piece_move.from_position as int],
            ) == PieceType::King && !spec_is_white(
                old(self).state.squares@[piece_move.from_position as int],
            ))),
            r is Ok ==> final(self).state.half_moves == old(self).state.half_moves,
    {
        let from_index = piece_move.get_from_position();
        let to_index = piece_move.get_to_position();
        if !self.state.is_valid_position(from_index) || !self.state.is_valid_position(to_index) {
            return Err("Invalid board position");
        }
        let moving_piece = self.state.get_piece(from_index);
        let existing_piece = self.state.get_piece(to_index);
        if moving_piece == EMPTY_PIECE {
            return Err("No piece at the position");
        }
        if get_piece_type(existing_piece) == PieceType::King {
            return Err("Can't capture king at position");
        }
        let is_ep = self.is_en_passant_capture(moving_piece, to_index);
        if !is_ep && piece_move.is_promotion() && !is_promotion_option(
            is_white_piece(moving_piece),
            piece_move.get_promotion_value(),
        ) {
            return Err("Pawn needs promotion type.");
        }
        let saved = self.state.clone();
        self.state_history.push(saved);
        self._make_move(piece_move, is_ep, moving_piece, existing_piece);
        Ok(())
    }

    /// Apply a validated move to the current state.
    fn _make_move(
        &mut self,
        piece_move: &PieceMove,
        is_ep: bool,
        moving_piece: i8,
        existing_piece: i8,
    )
        requires
            old(self).state.inv(),
            0 <= piece_move.from_position < 64,
            0 <= piece_move.to_position < 64,
            moving_piece == old(self).state.squares@[piece_move.from_position as int],
            existing_piece == old(self).state.squares@[piece_move.to_position as int],
            moving_piece != EMPTY_PIECE,
            is_ep == spec_is_ep_capture(old(self).state, moving_piece, piece_move.to_position),
        ensures
            final(self).state.inv(),
            final(self).state_history == old(self).state_history,
            final(self).state.squares@ == spec_make_squares(old(self).state, *piece_move),
            final(self).state.white_move == !old(self).state.white_move,
            final(self).state.winner == old(self).state.winner,
            final(self).state.zobrist.keys == old(self).state.zobrist.keys,
            final(self).state.full_moves == (if !old(self).state.white_move && old(self).state.full_moves < 127 {
                old(self).state.full_moves + 1
            } else {
                old(self).state.full_moves as int
            }),
            final(self).state.white_en_passant == spec_push_ep_white(
                spec_effective_piece(old(self).state, *piece_move),
                piece_move.from_position,
                piece_move.to_position,
            ),
            final(self).state.black_en_passant == spec_push_ep_black(
                spec_effective_piece(old(self).state, *piece_move),
                piece_move.from_position,
                piece_move.to_position,
            ),
            final(self).state.white_king_moved == (old(self).state.white_king_moved || (!is_ep
                && !piece_move.is_promotion && spec_piece_type(moving_piece) == PieceType::King
                && spec_is_white(moving_piece))),
            final(self).state.black_king_moved == (old(self).state.black_king_moved || (!is_ep
                && !piece_move.is_promotion && spec_piece_type(moving_piece) == PieceType::King
                && !spec_is_white(moving_piece))),
            final(self).state.white_captures@ == spec_make_captures(old(self).state, *piece_move).0,
            final(self).state.black_captures@ == spec_make_captures(old(self).state, *piece_move).1,
            final(self).state.white_able_to_king_side_castle == spec_make_wks(
                old(self).state,
                *piece_move,
            ),
            final(self).state.white_able_to_queen_side_castle == spec_make_wqs(
                old(self).state,
                *piece_move,
            ),
            final(self).state.black_able_to_king_side_castle == spec_make_bks(
                old(self).state,
                *piece_move,
            ),
            final(self).state.black_able_to_queen_side_castle == spec_make_bqs(
                old(self).state,
                *piece_move,
            ),
            final(self).state.half_moves == old(self).state.half_moves,
    {
        let from_index = piece_move.get_from_position();
        let to_index = piece_move.get_to_position();
        let mut effective_piece = moving_piece;
        if is_ep {
            self.capture_en_passant(moving_piece);
        } else if piece_move.is_promotion() {
            effective_piece = piece_move.get_promotion_value();
        } else if get_piece_type(moving_piece) == PieceType::King {
            self.handle_king_move(from_index, to_index, is_white_piece(moving_piece));
        }
        self.state.move_piece(from_index, effective_piece, to_index);
        self.handle_state_update_after(from_index, effective_piece, to_index, existing_piece);
    }

    /// Record that the king moved; on a two-file move by an unmoved
    /// king, move the rook as well and drop both castling rights.
    fn handle_king_move(&mut self, from_index: i8, to_index: i8, white_piece: bool)
        requires
            old(self).state.inv(),
            0 <= from_index < 64,
            0 <= to_index < 64,
        ensures
            final(self).state.inv(),
            final(self).state_history == old(self).state_history,
            ({
                let castles = (from_index - to_index == 2 || to_index - from_index == 2) && !(
                if white_piece {
                    old(self).state.white_king_moved
                } else {
                    old(self).state.black_king_moved
                });
                let rf = spec_rook_from(white_piece, from_index as int, to_index as int);
                let rt = spec_rook_to(from_index as int, to_index as int);
                let rook = old(self).state.squares@[rf];
                let moved = castles && rook != EMPTY_PIECE && spec_piece_type(
                    old(self).state.squares@[rt],
                ) != PieceType::King;
                &&& final(self).state.squares@ == (if moved {
                    old(self).state.squares@.update(rt, rook).update(rf, 0i8)
                } else {
                    old(self).state.squares@
                })
                &&& final(self).state.white_king_position == (if moved && rook == 18 {
                    rt
                } else {
                    old(self).state.white_king_position as int
                })
                &&& final(self).state.black_king_position == (if moved && rook == 10 {
                    rt
                } else {
                    old(self).state.black_king_position as int
                })
                &&& (castles && white_piece ==> !final(self).state.white_able_to_king_side_castle && !final(self).state.white_able_to_queen_side_castle)
                &&& (castles && !white_piece ==> !final(self).state.black_able_to_king_side_castle && !final(self).state.black_able_to_queen_side_castle)
                &&& (!castles ==> final(self).state.white_able_to_king_side_castle == old(self).state.white_able_to_king_side_castle && final(self).state.white_able_to_queen_side_castle == old(self).state.white_able_to_queen_side_castle && final(self).state.black_able_to_king_side_castle == old(self).state.black_able_to_king_side_castle && final(self).state.black_able_to_queen_side_castle == old(self).state.black_able_to_queen_side_castle)
                &&& (white_piece ==> final(self).state.black_able_to_king_side_castle == old(self).state.black_able_to_king_side_castle && final(self).state.black_able_to_queen_side_castle == old(self).state.black_able_to_queen_side_castle)
                &&& (!white_piece ==> final(self).state.white_able_to_king_side_castle == old(self).state.white_able_to_king_side_castle && final(self).state.white_able_to_queen_side_castle == old(self).state.white_able_to_queen_side_castle)
                &&& final(self).state.white_captures@ == (if moved && spec_piece_type(
                    old(self).state.squares@[rt],
                ) != PieceType::Empty && !spec_is_white(old(self).state.squares@[rt]) {
                    old(self).state.white_captures@.push(old(self).state.squares@[rt])
                } else {
                    old(self).state.white_captures@
                })
                &&& final(self).state.black_captures@ == (if moved && spec_piece_type(
                    old(self).state.squares@[rt],
                ) != PieceType::Empty && spec_is_white(old(self).state.squares@[rt]) {
                    old(self).state.black_captures@.push(old(self).state.squares@[rt])
                } else {
                    old(self).state.black_captures@
                })
            }),
            final(self).state.white_king_moved == (white_piece || old(self).state.white_king_moved),
            final(self).state.black_king_moved == (!white_piece || old(self).state.black_king_moved),
            final(self).state.white_move == old(self).state.white_move,
            final(self).state.winner == old(self).state.winner,
            final(self).state.full_moves == old(self).state.full_moves,
            final(self).state.half_moves == old(self).state.half_moves,
            final(self).state.white_en_passant == old(self).state.white_en_passant,
            final(self).state.black_en_passant == old(self).state.black_en_passant,
            final(self).state.zobrist.keys == old(self).state.zobrist.keys,
    {
        let is_castle_move = from_index - to_index == 2 || to_index - from_index == 2;
        let king_moved = if white_piece {
            self.state.has_white_king_moved()
        } else {
            self.state.has_black_king_moved()
        };
        if is_castle_move && !king_moved {
            self.castle(from_index, to_index, white_piece);
        }
        if white_piece {
            self.state.set_white_king_moved(true);
        } else {
            self.state.set_black_king_moved(true);
        }
    }

    /// The rook half of castling: move the rook beside the king and drop
    /// both of the color's castling rights.
    fn castle(&mut self, from_index: i8, to_index: i8, white_piece: bool)
        requires
            old(self).state.inv(),
            0 <= from_index < 64,
            0 <= to_index < 64,
            from_index - to_index == 2 || to_index - from_index == 2,
        ensures
            final(self).state.inv(),
            final(self).state_history == old(self).state_history,
            ({
                let rf = spec_rook_from(white_piece, from_index as int, to_index as int);
                let rt = spec_rook_to(from_index as int, to_index as int);
                let rook = old(self).state.squares@[rf];
                let moved = rook != EMPTY_PIECE && spec_piece_type(old(self).state.squares@[rt])
                    != PieceType::King;
                &&& final(self).state.squares@ == (if moved {
                    old(self).state.squares@.update(rt, rook).update(rf, 0i8)
                } else {
                    old(self).state.squares@
                })
                &&& final(self).state.white_captures@ == (if moved && spec_piece_type(
                    old(self).state.squares@[rt],
                ) != PieceType::Empty && !spec_is_white(old(self).state.squares@[rt]) {
                    old(self).state.white_captures@.push(old(self).state.squares@[rt])
                } else {
                    old(self).state.white_captures@
                })
                &&& final(self).state.black_captures@ == (if moved && spec_piece_type(
                    old(self).state.squares@[rt],
                ) != PieceType::Empty && spec_is_white(old(self).state.squares@[rt]) {
                    old(self).state.black_captures@.push(old(self).state.squares@[rt])
                } else {
                    old(self).state.black_captures@
                })
                &&& final(self).state.white_king_position == (if moved && rook == 18 {
                    rt
                } else {
                    old(self).state.white_king_position as int
                })
                &&& final(self).state.black_king_position == (if moved && rook == 10 {
                    rt
                } else {
                    old(self).state.black_king_position as int
                })
            }),
            white_piece ==> !final(self).state.white_able_to_king_side_castle && !final(self).state.white_able_to_queen_side_castle && final(self).state.black_able_to_king_side_castle == old(self).state.black_able_to_king_side_castle && final(self).state.black_able_to_queen_side_castle == old(self).state.black_able_to_queen_side_castle,
            !white_piece ==> !final(self).state.black_able_to_king_side_castle && !final(self).state.black_able_to_queen_side_castle && final(self).state.white_able_to_king_side_castle == old(self).state.white_able_to_king_side_castle && final(self).state.white_able_to_queen_side_castle == old(self).state.white_able_to_queen_side_castle,
            final(self).state.white_move == old(self).state.white_move,
            final(self).state.winner == old(self).state.winner,
            final(self).state.full_moves == old(self).state.full_moves,
            final(self).state.half_moves == old(self).state.half_moves,
            final(self).state.white_en_passant == old(self).state.white_en_passant,
            final(self).state.black_en_passant == old(self).state.black_en_passant,
            final(self).state.white_king_moved == old(self).state.white_king_moved,
            final(self).state.black_king_moved == old(self).state.black_king_moved,
            final(self).state.zobrist.keys == old(self).state.zobrist.keys,
    {
        let rook_position = if from_index > to_index {
            if white_piece {
                WHITE_QUEEN_ROOK_POS
            } else {
                BLACK_QUEEN_ROOK_POS
            }
        } else {
            if white_piece {
                WHITE_KING_ROOK_POS
            } else {
                BLACK_KING_ROOK_POS
            }
        };
        let new_rook_position = if from_index > to_index {
            from_index - 1
        } else {
            from_index + 1
        };
        if white_piece {
            self.state.set_white_able_to_queen_side_castle(false);
            self.state.set_white_able_to_king_side_castle(false);
        } else {
            self.state.set_black_able_to_queen_side_castle(false);
            self.state.set_black_able_to_king_side_castle(false);
        }
        let rook_value = self.state.get_piece(rook_position);
        let target_value = self.state.get_piece(new_rook_position);
        if rook_value != EMPTY_PIECE && get_piece_type(target_value) != PieceType::King {
            self.state.move_piece(rook_position, rook_value, new_rook_position);
        }
    }

    /// Remove the pawn captured en passant and credit it to the mover's
    /// capture list.
    fn capture_en_passant(&mut self, moving_piece: i8)
        requires
            old(self).state.inv(),
        ensures
            final(self).state.inv(),
            final(self).state_history == old(self).state_history,
            ({
                let cap = spec_ep_cap_square(old(self).state, spec_is_white(moving_piece));
                final(self).state.squares@ == (if 0 <= cap < 64 {
                    old(self).state.squares@.update(cap, 0i8)
                } else {
                    old(self).state.squares@
                })
            }),
            final(self).state.white_move == old(self).state.white_move,
            final(self).state.winner == old(self).state.winner,
            final(self).state.full_moves == old(self).state.full_moves,
            final(self).state.half_moves == old(self).state.half_moves,
            final(self).state.white_king_position == old(self).state.white_king_position,
            final(self).state.black_king_position == old(self).state.black_king_position,
            final(self).state.white_king_moved == old(self).state.white_king_moved,
            final(self).state.black_king_moved == old(self).state.black_king_moved,
            final(self).state.white_able_to_king_side_castle == old(self).state.white_able_to_king_side_castle,
            final(self).state.white_able_to_queen_side_castle == old(self).state.white_able_to_queen_side_castle,
            final(self).state.black_able_to_king_side_castle == old(self).state.black_able_to_king_side_castle,
            final(self).state.black_able_to_queen_side_castle == old(self).state.black_able_to_queen_side_castle,
            final(self).state.zobrist.keys == old(self).state.zobrist.keys,
            spec_is_white(moving_piece) ==> final(self).state.black_en_passant == -1
                && final(self).state.white_en_passant == old(self).state.white_en_passant
                && final(self).state.white_captures@ == old(self).state.white_captures@.push(
                old(self).state.spec_piece_at((old(self).state.black_en_passant + 8) as i8),
            ) && final(self).state.black_captures@ == old(self).state.black_captures@,
            !spec_is_white(moving_piece) ==> final(self).state.white_en_passant == -1
                && final(self).state.black_en_passant == old(self).state.black_en_passant
                && final(self).state.black_captures@ == old(self).state.black_captures@.push(
                old(self).state.spec_piece_at((old(self).state.white_en_passant - 8) as i8),
            ) && final(self).state.white_captures@ == old(self).state.white_captures@,
    {
        let white_piece = is_white_piece(moving_piece);
        if white_piece {
            let position = self.state.get_black_en_passant() + 8;
            let piece_value = self.state.get_piece(position);
            self.state.append_white_capture(piece_value);
            self.state.place_piece(position, EMPTY_PIECE);
            self.state.set_black_en_passant(-1);
        } else {
            let position = self.state.get_white_en_passant() - 8;
            let piece_value = self.state.get_piece(position);
            self.state.append_black_capture(piece_value);
            self.state.place_piece(position, EMPTY_PIECE);
            self.state.set_white_en_passant(-1);
        }
    }

    /// A pawn move to the side's en-passant target square.
    pub fn is_en_passant_capture(&self, piece: i8, to_index: i8) -> (r: bool)
        ensures
            r == spec_is_ep_capture(self.state, piece, to_index),
    {
        if crate::pieces::is_piece_of_type(piece, PieceType::Pawn) {
            let en_passant = if is_white_piece(piece) {
                self.state.get_black_en_passant()
            } else {
                self.state.get_white_en_passant()
            };
            en_passant != -1 && to_index == en_passant
        } else {
            false
        }
    }

    /// The bookkeeping after the piece has moved: en-passant targets,
    /// the full-move counter, the side to move, and castling rights lost
    /// to a rook moving or being captured.
    fn handle_state_update_after(
        &mut self,
        from_index: i8,
        moving_piece: i8,
        to_index: i8,
        replaced_piece: i8,
    )
        requires
            old(self).state.inv(),
            0 <= from_index < 64,
            0 <= to_index < 64,
        ensures
            final(self).state.inv(),
            final(self).state_history == old(self).state_history,
            final(self).state.squares@ == old(self).state.squares@,
            final(self).state.white_move == !old(self).state.white_move,
            final(self).state.winner == old(self).state.winner,
            final(self).state.zobrist.keys == old(self).state.zobrist.keys,
            final(self).state.full_moves == (if !old(self).state.white_move && old(self).state.full_moves < 127 {
                old(self).state.full_moves + 1
            } else {
                old(self).state.full_moves as int
            }),
            final(self).state.white_en_passant == spec_push_ep_white(
                moving_piece,
                from_index,
                to_index,
            ),
            final(self).state.black_en_passant == spec_push_ep_black(
                moving_piece,
                from_index,
                to_index,
            ),
            final(self).state.white_king_moved == old(self).state.white_king_moved,
            final(self).state.black_king_moved == old(self).state.black_king_moved,
            final(self).state.half_moves == old(self).state.half_moves,
            final(self).state.white_captures@ == old(self).state.white_captures@,
            final(self).state.black_captures@ == old(self).state.black_captures@,
            final(self).state.white_able_to_king_side_castle == (old(self).state.white_able_to_king_side_castle
                && !spec_rook_right_cleared(moving_piece, replaced_piece, from_index, to_index, 63)),
            final(self).state.white_able_to_queen_side_castle == (old(self).state.white_able_to_queen_side_castle
                && !spec_rook_right_cleared(moving_piece, replaced_piece, from_index, to_index, 56)),
            final(self).state.black_able_to_king_side_castle == (old(self).state.black_able_to_king_side_castle
                && !spec_rook_right_cleared(moving_piece, replaced_piece, from_index, to_index, 7)),
            final(self).state.black_able_to_queen_side_castle == (old(self).state.black_able_to_queen_side_castle
                && !spec_rook_right_cleared(moving_piece, replaced_piece, from_index, to_index, 0)),
    {
        self.handle_en_passant(from_index, moving_piece, to_index);
        if !self.state.is_white_move() {
            self.state.increment_full_moves();
        }
        let side = self.state.is_white_move();
        self.state.set_white_move(!side);
        if get_piece_type(moving_piece) == PieceType::Rook {
            self.state.update_castling_ability(from_index, from_index < 8, from_index % 8 == 7);
        }
        if get_piece_type(replaced_piece) == PieceType::Rook {
            self.state.update_castling_ability(to_index, to_index < 8, to_index % 8 == 7);
        }
    }

    /// Clear both en-passant targets; a fresh two-square pawn push sets
    /// the opponent's target to the square behind the pawn.
    fn handle_en_passant(&mut self, from_index: i8, piece_value: i8, to_index: i8)
        requires
            old(self).state.inv(),
            0 <= from_index < 64,
            0 <= to_index < 64,
        ensures
            final(self).state.inv(),
            final(self).state_history == old(self).state_history,
            final(self).state.squares@ == old(self).state.squares@,
            final(self).state.white_move == old(self).state.white_move,
            final(self).state.winner == old(self).state.winner,
            final(self).state.full_moves == old(self).state.full_moves,
            final(self).state.half_moves == old(self).state.half_moves,
            final(self).state.zobrist.keys == old(self).state.zobrist.keys,
            final(self).state.white_king_moved == old(self).state.white_king_moved,
            final(self).state.black_king_moved == old(self).state.black_king_moved,
            final(self).state.white_able_to_king_side_castle == old(self).state.white_able_to_king_side_castle,
            final(self).state.white_able_to_queen_side_castle == old(self).state.white_able_to_queen_side_castle,
            final(self).state.black_able_to_king_side_castle == old(self).state.black_able_to_king_side_castle,
            final(self).state.black_able_to_queen_side_castle == old(self).state.black_able_to_queen_side_castle,
            final(self).state.white_captures@ == old(self).state.white_captures@,
            final(self).state.black_captures@ == old(self).state.black_captures@,
            final(self).state.white_en_passant == (if spec_piece_type(piece_value)
                == PieceType::Pawn && spec_is_white(piece_value) && 48 <= from_index <= 55 && 32
                <= to_index <= 39 {
                to_index + 8
            } else {
                -1int
            }),
            final(self).state.black_en_passant == (if spec_piece_type(piece_value)
                == PieceType::Pawn && !spec_is_white(piece_value) && 8 <= from_index <= 15 && 24
                <= to_index <= 31 {
                to_index - 8
            } else {
                -1int
            }),
    {
        self.state.set_white_en_passant(-1);
        self.state.set_black_en_passant(-1);
        if !crate::pieces::is_piece_of_type(piece_value, PieceType::Pawn) {
            return ;
        }
        if is_white_piece(piece_value) {
            if 48 <= from_index && from_index <= 55 && 32 <= to_index && to_index <= 39 {
                self.state.set_white_en_passant(to_index + 8);
            }
        } else {
            if 8 <= from_index && from_index <= 15 && 24 <= to_index && to_index <= 31 {
                self.state.set_black_en_passant(to_index - 8);
            }
        }
    }
}

/// The white en-passant target after a move: set exactly by a white
/// pawn's fresh two-square push, cleared otherwise.
pub open spec fn spec_push_ep_white(moving_piece: i8, from_index: i8, to_index: i8) -> int {
    if spec_piece_type(moving_piece) == PieceType::Pawn && spec_is_white(moving_piece) && 48
        <= from_index <= 55 && 32 <= to_index <= 39 {
        to_index + 8
    } else {
        -1
    }
}

/// The black en-passant target after a move: set exactly by a black
/// pawn's fresh two-square push, cleared otherwise.
pub open spec fn spec_push_ep_black(moving_piece: i8, from_index: i8, to_index: i8) -> int {
    if spec_piece_type(moving_piece) == PieceType::Pawn && !spec_is_white(moving_piece) && 8
        <= from_index <= 15 && 24 <= to_index <= 31 {
        to_index - 8
    } else {
        -1
    }
}


/// The post-move bookkeeping drops the castling right tied to `corner`
/// when a rook moves away from it, or when the piece captured there was
/// a rook.
pub open spec fn spec_rook_right_cleared(
    moving_piece: i8,
    replaced_piece: i8,
    from_index: i8,
    to_index: i8,
    corner: i8,
) -> bool {
    ||| (spec_piece_type(moving_piece) == PieceType::Rook && from_index == corner)
    ||| (spec_piece_type(replaced_piece) == PieceType::Rook && to_index == corner)
}

/// Append a captured piece to the list of the side that took it: white
/// pieces land in black's list and black pieces in white's; anything
/// outside the piece encoding is not recorded.
pub open spec fn spec_push_captured(white_captures: Seq<i8>, black_captures: Seq<i8>, captured: i8) -> (
    Seq<i8>,
    Seq<i8>,
) {
    if spec_piece_type(captured) != PieceType::Empty {
        if spec_is_white(captured) {
            (white_captures, black_captures.push(captured))
        } else {
            (white_captures.push(captured), black_captures)
        }
    } else {
        (white_captures, black_captures)
    }
}

/// The two capture lists after a move: an en-passant capture credits
/// the passed pawn to the mover first, a castle rook co-move may record
/// what stood on the rook's destination, and the main step records
/// whatever still stands on the destination square.
pub open spec fn spec_make_captures(s: BoardState, m: PieceMove) -> (Seq<i8>, Seq<i8>) {
    let from = m.from_position as int;
    let to = m.to_position as int;
    let moving = s.squares@[from];
    let white = spec_is_white(moving);
    if spec_is_ep_capture(s, moving, m.to_position) {
        let cap = spec_ep_cap_square(s, white);
        let w1 = if white {
            s.white_captures@.push(s.spec_piece_at(cap as i8))
        } else {
            s.white_captures@
        };
        let b1 = if white {
            s.black_captures@
        } else {
            s.black_captures@.push(s.spec_piece_at(cap as i8))
        };
        spec_push_captured(w1, b1, s.squares@[to])
    } else if m.is_promotion {
        spec_push_captured(s.white_captures@, s.black_captures@, s.squares@[to])
    } else if spec_castle_applies(s, moving, from, to) {
        let rf = spec_rook_from(white, from, to);
        let rt = spec_rook_to(from, to);
        let rook = s.squares@[rf];
        let moved = rook != EMPTY_PIECE && spec_piece_type(s.squares@[rt]) != PieceType::King;
        let stage1 = if moved {
            spec_push_captured(s.white_captures@, s.black_captures@, s.squares@[rt])
        } else {
            (s.white_captures@, s.black_captures@)
        };
        let captured2 = if moved && to == rf {
            EMPTY_PIECE
        } else {
            s.squares@[to]
        };
        spec_push_captured(stage1.0, stage1.1, captured2)
    } else {
        spec_push_captured(s.white_captures@, s.black_captures@, s.squares@[to])
    }
}

/// Whether the castle branch of make clears both of the mover's
/// castling rights: a two-file move by an unmoved king, neither an
/// en-passant capture nor a promotion.
pub open spec fn spec_castle_clears_rights(s: BoardState, m: PieceMove, white: bool) -> bool {
    let moving = s.squares@[m.from_position as int];
    &&& !spec_is_ep_capture(s, moving, m.to_position)
    &&& !m.is_promotion
    &&& spec_castle_applies(s, moving, m.from_position as int, m.to_position as int)
    &&& spec_is_white(moving) == white
}

/// The white king-side castling right after a move.
pub open spec fn spec_make_wks(s: BoardState, m: PieceMove) -> bool {
    s.white_able_to_king_side_castle && !spec_castle_clears_rights(s, m, true)
        && !spec_rook_right_cleared(
        spec_effective_piece(s, m),
        s.squares@[m.to_position as int],
        m.from_position,
        m.to_position,
        63,
    )
}

/// The white queen-side castling right after a move.
pub open spec fn spec_make_wqs(s: BoardState, m: PieceMove) -> bool {
    s.white_able_to_queen_side_castle && !spec_castle_clears_rights(s, m, true)
        && !spec_rook_right_cleared(
        spec_effective_piece(s, m),
        s.squares@[m.to_position as int],
        m.from_position,
        m.to_position,
        56,
    )
}

/// The black king-side castling right after a move.
pub open spec fn spec_make_bks(s: BoardState, m: PieceMove) -> bool {
    s.black_able_to_king_side_castle && !spec_castle_clears_rights(s, m, false)
        && !spec_rook_right_cleared(
        spec_effective_piece(s, m),
        s.squares@[m.to_position as int],
        m.from_position,
        m.to_position,
        7,
    )
}

/// The black queen-side castling right after a move.
pub open spec fn spec_make_bqs(s: BoardState, m: PieceMove) -> bool {
    s.black_able_to_queen_side_castle && !spec_castle_clears_rights(s, m, false)
        && !spec_rook_right_cleared(
        spec_effective_piece(s, m),
        s.squares@[m.to_position as int],
        m.from_position,
        m.to_position,
        0,
    )
}


/// The white king-moved flag after a move.
pub open spec fn spec_make_white_king_moved(s: BoardState, m: PieceMove) -> bool {
    let moving = s.squares@[m.from_position as int];
    s.white_king_moved || (!spec_is_ep_capture(s, moving, m.to_position) && !m.is_promotion
        && spec_piece_type(moving) == PieceType::King && spec_is_white(moving))
}

/// The black king-moved flag after a move.
pub open spec fn spec_make_black_king_moved(s: BoardState, m: PieceMove) -> bool {
    let moving = s.squares@[m.from_position as int];
    s.black_king_moved || (!spec_is_ep_capture(s, moving, m.to_position) && !m.is_promotion
        && spec_piece_type(moving) == PieceType::King && !spec_is_white(moving))
}


/// Whether a value is one of the mover's four promotion pieces.
pub fn is_promotion_option(white: bool, value: i8) -> (r: bool)
    ensures
        r == crate::pieces::spec_promotion_options(white).contains(value),
{
    let r = if white {
        value == 17 || value == 19 || value == 21 || value == 22
    } else {
        value == 9 || value == 11 || value == 13 || value == 14
    };
    proof {
        let opts = crate::pieces::spec_promotion_options(white);
        if r {
            assert(opts[0] == opts[0]);
            assert(opts.contains(value)) by {
                if value == opts[0] || value == opts[1] || value == opts[2] || value == opts[3] {
                }
            }
        } else {
            assert(!opts.contains(value)) by {
                if opts.contains(value) {
                    let k = choose|k: int| 0 <= k < opts.len() && opts[k] == value;
                }
            }
        }
    }
    r
}

/// The winner code the game-over bookkeeping writes: the opponent of the
/// checkmated side to move, or the draw code 24.
pub open spec fn spec_winner_code(is_king_in_check: bool, is_white_move: bool) -> i8 {
    if is_king_in_check {
        if is_white_move {
            8i8
        } else {
            16i8
        }
    } else {
        24i8
    }
}

/// The winner report: `w`, `b`, `d`, or `-` while the game is on.
pub open spec fn spec_winner_fen(winner: i8) -> char {
    if winner == 16 {
        'w'
    } else if winner == 8 {
        'b'
    } else if winner == 24 {
        'd'
    } else {
        '-'
    }
}

impl Board {
    fn get_move_generator(&self) -> (generator: crate::move_generator::MoveGenerator)
        requires
            self.inv(),
        ensures
            generator.board_state.spec_eq_states(self.state),
            generator.board_state.inv(),
    {
        crate::move_generator::MoveGenerator::new(self.get_state_clone())
    }

    /// Produce, for every square, the piece standing there and its legal
    /// moves, recording the game's end on this board when the side to
    /// move has none.
    ///
    /// Every move returned for the side to move passed the legality
    /// filter: making it yields a position on which no enemy piece
    /// attacks the mover's king (its destination, for a king move), as
    /// `spec_king_safe_with` states.
    pub fn get_pieces(&mut self) -> (pieces: Vec<crate::board_piece::BoardPiece>)
        requires
            old(self).inv(),
        ensures
            pieces@.len() == 64,
            forall|i: int|
                0 <= i < 64 ==> (#[trigger] pieces@[i]).position == i && pieces@[i].value == old(self).state.squares@[i] && pieces@[i].white == crate::pieces::spec_is_white(
                    old(self).state.squares@[i],
                ),
            forall|i: int| 0 <= i < 64 ==> (#[trigger] pieces@[i]).moves@.len() <= 56,
            forall|i: int, j: int|
                0 <= i < 64 && (#[trigger] pieces@[i]).value != EMPTY_PIECE && pieces@[i].white
                    == old(self).state.white_move && 0 <= j < pieces@[i].moves@.len()
                    ==> crate::move_generator::spec_king_safe_with(
                    old(self).state,
                    crate::move_generator::spec_adjusted_move(
                        #[trigger] pieces@[i].moves@[j],
                        pieces@[i].value,
                    ),
                    if crate::pieces::spec_piece_type(pieces@[i].value)
                        == crate::pieces::PieceType::King {
                        pieces@[i].moves@[j].to_position
                    } else {
                        if old(self).state.white_move {
                            old(self).state.white_king_position
                        } else {
                            old(self).state.black_king_position
                        }
                    },
                ),
            forall|i: int|
                0 <= i < 64 && (#[trigger] pieces@[i]).value != EMPTY_PIECE && pieces@[i].white
                    == old(self).state.white_move && crate::pieces::spec_piece_type(
                    pieces@[i].value,
                ) != crate::pieces::PieceType::King && i != old(self).state.white_king_position as int
                    && i != old(self).state.black_king_position as int ==> pieces@[i].moves@
                    == crate::move_generator::spec_kept_moves(
                    old(self).state,
                    crate::move_generator::spec_piece_moves(
                        old(self).state,
                        crate::pieces::spec_piece_type(pieces@[i].value),
                        i,
                    ),
                    crate::move_generator::spec_piece_moves(
                        old(self).state,
                        crate::pieces::spec_piece_type(pieces@[i].value),
                        i,
                    ).len() as int,
                    pieces@[i].value,
                    false,
                    if old(self).state.white_move {
                        old(self).state.white_king_position
                    } else {
                        old(self).state.black_king_position
                    },
                ),
            forall|i: int|
                0 <= i < 64 && ((#[trigger] pieces@[i]).value == EMPTY_PIECE || pieces@[i].white
                    != old(self).state.white_move) && crate::pieces::spec_piece_type(
                    pieces@[i].value,
                ) != crate::pieces::PieceType::King && i != old(self).state.white_king_position as int
                    && i != old(self).state.black_king_position as int ==> pieces@[i].moves@
                    == crate::move_generator::spec_piece_moves(
                    old(self).state,
                    crate::pieces::spec_piece_type(pieces@[i].value),
                    i,
                ),
            final(self).inv(),
            final(self).state.spec_eq_states_except_winner(old(self).state),
            final(self).state_history@ == old(self).state_history@,
            (exists|i: int|
                0 <= i < 64 && (#[trigger] pieces@[i]).value != EMPTY_PIECE && pieces@[i].white
                    == old(self).state.white_move && pieces@[i].moves@.len() > 0) ==> final(self).state.winner == old(self).state.winner,
            !(exists|i: int|
                0 <= i < 64 && (#[trigger] pieces@[i]).value != EMPTY_PIECE && pieces@[i].white
                    == old(self).state.white_move && pieces@[i].moves@.len() > 0) ==> (final(self).state.winner == spec_winner_code(false, old(self).state.white_move) || final(self).state.winner == spec_winner_code(true, old(self).state.white_move)),
            crate::move_generator::spec_two_kings_draw(old(self).state) ==> final(self).state.winner == 24,
    {
        let mut move_generator = self.get_move_generator();
        let ghost pre_state = self.state;
        let pieces = move_generator.get_available_moves(self);
        proof {
            assert(pre_state == old(self).state);
            assert forall|i: int, j: int|
                0 <= i < 64 && (#[trigger] pieces@[i]).value != EMPTY_PIECE && pieces@[i].white
                    == old(self).state.white_move && 0 <= j
                    < pieces@[i].moves@.len() implies crate::move_generator::spec_king_safe_with(
                old(self).state,
                crate::move_generator::spec_adjusted_move(
                    #[trigger] pieces@[i].moves@[j],
                    pieces@[i].value,
                ),
                if crate::pieces::spec_piece_type(pieces@[i].value)
                    == crate::pieces::PieceType::King {
                    pieces@[i].moves@[j].to_position
                } else {
                    if old(self).state.white_move {
                        old(self).state.white_king_position
                    } else {
                        old(self).state.black_king_position
                    }
                },
            ) by {
                assert(pieces@[i].moves@.len() > 0);
            }
        }
        pieces
    }
}

} // verus!
