//! The mutable position: 64 squares, side to move, castling rights,
//! en-passant targets, capture lists, king-square caches, move counters,
//! the winner code and the incrementally maintained Zobrist hash.
//!
//! Every mutating operation preserves the invariant `inv`, whose
//! `hash_ok` half states that the stored hash always equals the full
//! XOR recomputation over the position.

use vstd::prelude::*;

use crate::pieces::{
    is_white_piece, spec_is_white, spec_piece_fen_from_value, spec_piece_type, PieceType,
};
use crate::zobrist::{
    get_piece_index, lemma_board_xor_update, lemma_flags_reshuffle, lemma_xor_assoc,
    lemma_xor_self, lemma_xor_shuffle, lemma_xor_zero, spec_board_xor, spec_flag, spec_flags_xor,
    spec_full_hash, spec_square_key, Zobrist,
};

verus! {

pub const BLACK_KING_INITIAL_POSITION: i8 = 4;

pub const BLACK_KING_ROOK_POS: i8 = 7;

pub const BLACK_KING_VALUE: i8 = 10;

pub const BLACK_PAWN_VALUE: i8 = 12;

pub const BLACK_QUEEN_ROOK_POS: i8 = 0;

pub const WHITE_KING_INITIAL_POSITION: i8 = 60;

pub const WHITE_KING_ROOK_POS: i8 = 63;

pub const WHITE_KING_VALUE: i8 = 18;

pub const WHITE_PAWN_VALUE: i8 = 20;

pub const WHITE_QUEEN_ROOK_POS: i8 = 56;

#[derive(Debug)]
pub struct BoardState {
    pub black_able_to_king_side_castle: bool,
    pub black_able_to_queen_side_castle: bool,
    pub black_captures: Vec<i8>,
    pub black_en_passant: i8,
    pub black_king_moved: bool,
    pub black_king_position: i8,
    pub full_moves: i8,
    pub half_moves: i8,
    pub white_move: bool,
    pub squares: Vec<i8>,
    pub white_able_to_king_side_castle: bool,
    pub white_able_to_queen_side_castle: bool,
    pub white_captures: Vec<i8>,
    pub white_en_passant: i8,
    pub white_king_moved: bool,
    pub white_king_position: i8,
    pub winner: i8,
    pub zobrist: Zobrist,
}

/// Copy a byte vector; used where the history stack needs its own data.
pub fn copy_bytes(v: &Vec<i8>) -> (r: Vec<i8>)
    ensures
        r@ == v@,
{
    let mut r: Vec<i8> = Vec::new();
    let mut i: usize = 0;
    while i < v.len()
        invariant
            i <= v@.len(),
            r@ == v@.subrange(0, i as int),
        decreases v@.len() - i,
    {
        r.push(v[i]);
        i = i + 1;
    }
    proof {
        assert(r@ =~= v@);
    }
    r
}

impl BoardState {
    /// Structural well-formedness: 64 squares, a full key table, cached
    /// king squares and en-passant targets on the board (or -1).
    pub open spec fn wf(self) -> bool {
        &&& self.squares@.len() == 64
        &&& (*self.zobrist.keys).wf()
        &&& 0 <= self.white_king_position < 64
        &&& 0 <= self.black_king_position < 64
        &&& (self.white_en_passant == -1 || (0 <= self.white_en_passant < 64))
        &&& (self.black_en_passant == -1 || (0 <= self.black_en_passant < 64))
    }

    /// The stored hash equals the full XOR recomputation over the
    /// position.
    pub open spec fn hash_ok(self) -> bool {
        self.zobrist.hash == self.spec_hash()
    }

    /// The full XOR recomputation over the position.
    pub open spec fn spec_hash(self) -> u64 {
        spec_full_hash(
            *self.zobrist.keys,
            self.squares@,
            self.white_move,
            self.white_able_to_king_side_castle,
            self.white_able_to_queen_side_castle,
            self.black_able_to_king_side_castle,
            self.black_able_to_queen_side_castle,
            self.white_en_passant != -1,
            self.black_en_passant != -1,
        )
    }

    pub open spec fn spec_flags(self) -> u64 {
        spec_flags_xor(
            *self.zobrist.keys,
            self.white_move,
            self.white_able_to_king_side_castle,
            self.white_able_to_queen_side_castle,
            self.black_able_to_king_side_castle,
            self.black_able_to_queen_side_castle,
            self.white_en_passant != -1,
            self.black_en_passant != -1,
        )
    }

    pub open spec fn inv(self) -> bool {
        self.wf() && self.hash_ok()
    }

    /// The key material of this position's hash.
    pub open spec fn spec_keys(self) -> crate::zobrist::ZobristKeys {
        *self.zobrist.keys
    }

    /// Everything observable about two positions agrees: squares,
    /// rights, targets, caches, counters, captures, winner and hash.
    pub open spec fn spec_eq_states(self, other: BoardState) -> bool {
        &&& self.squares@ == other.squares@
        &&& self.white_move == other.white_move
        &&& self.white_able_to_king_side_castle == other.white_able_to_king_side_castle
        &&& self.white_able_to_queen_side_castle == other.white_able_to_queen_side_castle
        &&& self.black_able_to_king_side_castle == other.black_able_to_king_side_castle
        &&& self.black_able_to_queen_side_castle == other.black_able_to_queen_side_castle
        &&& self.white_en_passant == other.white_en_passant
        &&& self.black_en_passant == other.black_en_passant
        &&& self.white_king_moved == other.white_king_moved
        &&& self.black_king_moved == other.black_king_moved
        &&& self.white_king_position == other.white_king_position
        &&& self.black_king_position == other.black_king_position
        &&& self.white_captures@ == other.white_captures@
        &&& self.black_captures@ == other.black_captures@
        &&& self.half_moves == other.half_moves
        &&& self.full_moves == other.full_moves
        &&& self.winner == other.winner
        &&& self.zobrist.hash == other.zobrist.hash
        &&& self.zobrist.keys == other.zobrist.keys
    }

    /// Everything of `spec_eq_states` except the winner code.
    pub open spec fn spec_eq_states_except_winner(self, other: BoardState) -> bool {
        &&& self.squares@ == other.squares@
        &&& self.white_move == other.white_move
        &&& self.white_able_to_king_side_castle == other.white_able_to_king_side_castle
        &&& self.white_able_to_queen_side_castle == other.white_able_to_queen_side_castle
        &&& self.black_able_to_king_side_castle == other.black_able_to_king_side_castle
        &&& self.black_able_to_queen_side_castle == other.black_able_to_queen_side_castle
        &&& self.white_en_passant == other.white_en_passant
        &&& self.black_en_passant == other.black_en_passant
        &&& self.white_king_moved == other.white_king_moved
        &&& self.black_king_moved == other.black_king_moved
        &&& self.white_king_position == other.white_king_position
        &&& self.black_king_position == other.black_king_position
        &&& self.white_captures@ == other.white_captures@
        &&& self.black_captures@ == other.black_captures@
        &&& self.half_moves == other.half_moves
        &&& self.full_moves == other.full_moves
        &&& self.zobrist.hash == other.zobrist.hash
        &&& self.zobrist.keys == other.zobrist.keys
    }

    pub fn new() -> (state: BoardState)
        ensures
            state.inv(),
            state.squares@ == Seq::new(64, |i: int| 0i8),
            state.white_move,
            state.white_able_to_king_side_castle,
            state.white_able_to_queen_side_castle,
            state.black_able_to_king_side_castle,
            state.black_able_to_queen_side_castle,
            !state.white_king_moved,
            !state.black_king_moved,
            state.white_en_passant == -1,
            state.black_en_passant == -1,
            state.white_king_position == WHITE_KING_INITIAL_POSITION,
            state.black_king_position == BLACK_KING_INITIAL_POSITION,
            state.white_captures@.len() == 0,
            state.black_captures@.len() == 0,
            state.half_moves == 0,
            state.full_moves == 0,
            state.winner == 0,
    {
        let zobrist = Zobrist::new();
        let mut squares: Vec<i8> = Vec::new();
        let mut i: usize = 0;
        while i < 64
            invariant
                i <= 64,
                squares@.len() == i,
                forall|j: int| 0 <= j < i ==> squares@[j] == 0i8,
            decreases 64 - i,
        {
            squares.push(0);
            i = i + 1;
        }
        proof {
            assert(squares@ =~= Seq::new(64, |i: int| 0i8));
        }
        let hash = crate::zobrist::compute_hash_parts(
            &zobrist.keys,
            &squares,
            true,
            true,
            true,
            true,
            true,
            false,
            false,
        );
        BoardState {
            black_able_to_king_side_castle: true,
            black_able_to_queen_side_castle: true,
            black_captures: Vec::new(),
            black_en_passant: -1,
            black_king_moved: false,
            black_king_position: BLACK_KING_INITIAL_POSITION,
            full_moves: 0,
            half_moves: 0,
            white_move: true,
            squares,
            white_able_to_king_side_castle: true,
            white_able_to_queen_side_castle: true,
            white_captures: Vec::new(),
            white_en_passant: -1,
            white_king_moved: false,
            white_king_position: WHITE_KING_INITIAL_POSITION,
            winner: 0,
            zobrist: Zobrist { keys: zobrist.keys, hash },
        }
    }

    pub fn clone(&self) -> (state: BoardState)
        ensures
            state.spec_eq_states(*self),
            self.inv() ==> state.inv(),
    {
        BoardState {
            black_able_to_king_side_castle: self.black_able_to_king_side_castle,
            black_able_to_queen_side_castle: self.black_able_to_queen_side_castle,
            black_captures: copy_bytes(&self.black_captures),
            black_en_passant: self.black_en_passant,
            black_king_moved: self.black_king_moved,
            black_king_position: self.black_king_position,
            full_moves: self.full_moves,
            half_moves: self.half_moves,
            white_move: self.white_move,
            squares: copy_bytes(&self.squares),
            white_able_to_king_side_castle: self.white_able_to_king_side_castle,
            white_able_to_queen_side_castle: self.white_able_to_queen_side_castle,
            white_captures: copy_bytes(&self.white_captures),
            white_en_passant: self.white_en_passant,
            white_king_moved: self.white_king_moved,
            white_king_position: self.white_king_position,
            winner: self.winner,
            zobrist: self.zobrist.clone(),
        }
    }

    pub fn is_able_to_castle_queen_side(&self, white_king: bool) -> (r: bool)
        ensures
            r == if white_king {
                self.white_able_to_queen_side_castle
            } else {
                self.black_able_to_queen_side_castle
            },
    {
        (white_king && self.white_able_to_queen_side_castle) || (!white_king
            && self.black_able_to_queen_side_castle)
    }

    pub fn is_able_to_castle_king_side(&self, white_king: bool) -> (r: bool)
        ensures
            r == if white_king {
                self.white_able_to_king_side_castle
            } else {
                self.black_able_to_king_side_castle
            },
    {
        (white_king && self.white_able_to_king_side_castle) || (!white_king
            && self.black_able_to_king_side_castle)
    }

    pub fn white_captures_to_fen(&self) -> (fens: Vec<String>)
        ensures
            fens@.len() == self.white_captures@.len(),
            forall|i: int|
                0 <= i < fens@.len() ==> fens@[i]@ == spec_piece_fen_from_value(
                    self.white_captures@[i],
                ),
    {
        crate::pieces::pieces_to_fen(&self.white_captures)
    }

    pub fn black_captures_to_fen(&self) -> (fens: Vec<String>)
        ensures
            fens@.len() == self.black_captures@.len(),
            forall|i: int|
                0 <= i < fens@.len() ==> fens@[i]@ == spec_piece_fen_from_value(
                    self.black_captures@[i],
                ),
    {
        crate::pieces::pieces_to_fen(&self.black_captures)
    }

    /// The piece at a square, or -1 for an index off the board.
    pub fn get_piece(&self, index: i8) -> (piece: i8)
        requires
            self.wf(),
        ensures
            piece == self.spec_piece_at(index),
    {
        if self.is_valid_position(index) {
            self.squares[index as usize]
        } else {
            -1
        }
    }

    pub open spec fn spec_piece_at(self, index: i8) -> i8 {
        if 0 <= index < 64 {
            self.squares@[index as int]
        } else {
            -1i8
        }
    }

    pub fn is_valid_position(&self, index: i8) -> (r: bool)
        ensures
            r == (0 <= index < 64),
    {
        index >= 0 && index < 64
    }

    /// Write a square: update the king cache when a king is written, and
    /// XOR the old and the new square key into the hash.  Off-board
    /// indexes are a no-op.
    pub fn place_piece(&mut self, index: i8, piece: i8)
        requires
            old(self).inv(),
        ensures
            final(self).inv(),
            !(0 <= index < 64) ==> *final(self) == *old(self),
            0 <= index < 64 ==> final(self).squares@ == old(self).squares@.update(
                index as int,
                piece,
            ),
            0 <= index < 64 ==> final(self).black_king_position == (if piece == BLACK_KING_VALUE {
                index
            } else {
                old(self).black_king_position
            }),
            0 <= index < 64 ==> final(self).white_king_position == (if piece == WHITE_KING_VALUE {
                index
            } else {
                old(self).white_king_position
            }),
            final(self).white_move == old(self).white_move,
            final(self).white_able_to_king_side_castle == old(self).white_able_to_king_side_castle,
            final(self).white_able_to_queen_side_castle == old(self).white_able_to_queen_side_castle,
            final(self).black_able_to_king_side_castle == old(self).black_able_to_king_side_castle,
            final(self).black_able_to_queen_side_castle == old(self).black_able_to_queen_side_castle,
            final(self).white_en_passant == old(self).white_en_passant,
            final(self).black_en_passant == old(self).black_en_passant,
            final(self).white_king_moved == old(self).white_king_moved,
            final(self).black_king_moved == old(self).black_king_moved,
            final(self).white_captures@ == old(self).white_captures@,
            final(self).black_captures@ == old(self).black_captures@,
            final(self).half_moves == old(self).half_moves,
            final(self).full_moves == old(self).full_moves,
            final(self).winner == old(self).winner,
            final(self).zobrist.keys == old(self).zobrist.keys,
    {
        if !(index >= 0 && index < 64) {
            return ;
        }
        let i = index as usize;
        let ghost keys = self.spec_keys();
        let ghost s1 = self.squares@;
        let ghost flags = self.spec_flags();
        let old_piece = self.squares[i];
        let ghost a = spec_square_key(keys, i as int, old_piece);
        let old_idx = get_piece_index(old_piece);
        if old_idx < 12 {
            self.zobrist.hash = self.zobrist.hash ^ self.zobrist.keys.table[i * 12 + old_idx];
        } else {
            proof {
                lemma_xor_zero(self.zobrist.hash);
            }
        }
        let ghost b = spec_square_key(keys, i as int, piece);
        let new_idx = get_piece_index(piece);
        if new_idx < 12 {
            self.zobrist.hash = self.zobrist.hash ^ self.zobrist.keys.table[i * 12 + new_idx];
        } else {
            proof {
                lemma_xor_zero(self.zobrist.hash);
            }
        }
        if piece == BLACK_KING_VALUE {
            self.black_king_position = index;
        } else if piece == WHITE_KING_VALUE {
            self.white_king_position = index;
        }
        self.squares[i] = piece;
        proof {
            let s2 = self.squares@;
            lemma_board_xor_update(keys, s1, s2, i as int, 64);
            let bx = spec_board_xor(keys, s1, 64);
            lemma_xor_assoc(flags, bx, a);
            lemma_xor_assoc(flags, bx ^ a, b);
            lemma_xor_assoc(bx, a, b);
        }
    }

    /// The compound write used by make-move: read what stands on the
    /// destination, put the moving piece there, clear the origin, and
    /// append a captured piece to the capturing side's list.
    pub fn move_piece(&mut self, from_index: i8, piece: i8, to_index: i8)
        requires
            old(self).inv(),
            0 <= from_index < 64,
            0 <= to_index < 64,
        ensures
            final(self).inv(),
            final(self).squares@ == old(self).squares@.update(to_index as int, piece).update(
                from_index as int,
                0i8,
            ),
            final(self).black_king_position == (if piece == BLACK_KING_VALUE {
                to_index
            } else {
                old(self).black_king_position
            }),
            final(self).white_king_position == (if piece == WHITE_KING_VALUE {
                to_index
            } else {
                old(self).white_king_position
            }),
            final(self).white_captures@ == (if spec_piece_type(
                old(self).squares@[to_index as int],
            ) != PieceType::Empty && !spec_is_white(old(self).squares@[to_index as int]) {
                old(self).white_captures@.push(old(self).squares@[to_index as int])
            } else {
                old(self).white_captures@
            }),
            final(self).black_captures@ == (if spec_piece_type(
                old(self).squares@[to_index as int],
            ) != PieceType::Empty && spec_is_white(old(self).squares@[to_index as int]) {
                old(self).black_captures@.push(old(self).squares@[to_index as int])
            } else {
                old(self).black_captures@
            }),
            final(self).white_move == old(self).white_move,
            final(self).white_able_to_king_side_castle == old(self).white_able_to_king_side_castle,
            final(self).white_able_to_queen_side_castle == old(self).white_able_to_queen_side_castle,
            final(self).black_able_to_king_side_castle == old(self).black_able_to_king_side_castle,
            final(self).black_able_to_queen_side_castle == old(self).black_able_to_queen_side_castle,
            final(self).white_en_passant == old(self).white_en_passant,
            final(self).black_en_passant == old(self).black_en_passant,
            final(self).white_king_moved == old(self).white_king_moved,
            final(self).black_king_moved == old(self).black_king_moved,
            final(self).half_moves == old(self).half_moves,
            final(self).full_moves == old(self).full_moves,
            final(self).winner == old(self).winner,
            final(self).zobrist.keys == old(self).zobrist.keys,
    {
        let captured_piece = self.get_piece(to_index);
        self.place_piece(to_index, piece);
        self.place_piece(from_index, 0);
        if crate::pieces::is_piece_of_type(captured_piece, PieceType::Empty) {
            return ;
        }
        if is_white_piece(captured_piece) {
            self.append_black_capture(captured_piece);
        } else {
            self.append_white_capture(captured_piece);
        }
    }

    pub fn get_black_en_passant(&self) -> (v: i8)
        ensures
            v == self.black_en_passant,
    {
        self.black_en_passant
    }

    pub fn get_white_en_passant(&self) -> (v: i8)
        ensures
            v == self.white_en_passant,
    {
        self.white_en_passant
    }

    pub fn is_black_able_to_king_side_castle(&self) -> (v: bool)
        ensures
            v == self.black_able_to_king_side_castle,
    {
        self.black_able_to_king_side_castle
    }

    pub fn is_black_able_to_queen_side_castle(&self) -> (v: bool)
        ensures
            v == self.black_able_to_queen_side_castle,
    {
        self.black_able_to_queen_side_castle
    }

    pub fn is_white_able_to_king_side_castle(&self) -> (v: bool)
        ensures
            v == self.white_able_to_king_side_castle,
    {
        self.white_able_to_king_side_castle
    }

    pub fn is_white_able_to_queen_side_castle(&self) -> (v: bool)
        ensures
            v == self.white_able_to_queen_side_castle,
    {
        self.white_able_to_queen_side_castle
    }

    pub fn has_black_king_moved(&self) -> (v: bool)
        ensures
            v == self.black_king_moved,
    {
        self.black_king_moved
    }

    pub fn has_white_king_moved(&self) -> (v: bool)
        ensures
            v == self.white_king_moved,
    {
        self.white_king_moved
    }

    pub fn get_black_king_position(&self) -> (v: i8)
        ensures
            v == self.black_king_position,
    {
        self.black_king_position
    }

    pub fn get_white_king_position(&self) -> (v: i8)
        ensures
            v == self.white_king_position,
    {
        self.white_king_position
    }

    pub fn is_white_move(&self) -> (v: bool)
        ensures
            v == self.white_move,
    {
        self.white_move
    }

    pub fn get_squares(&self) -> (squares: &Vec<i8>)
        ensures
            squares == &self.squares,
    {
        &self.squares
    }

    pub fn get_zobrist_hash(&self) -> (h: u64)
        ensures
            h == self.zobrist.hash,
    {
        self.zobrist.get_hash()
    }

    pub fn winner(&self) -> (v: i8)
        ensures
            v == self.winner,
    {
        self.winner
    }

    pub fn set_winner(&mut self, value: i8)
        requires
            old(self).inv(),
        ensures
            final(self).inv(),
            *final(self) == (BoardState { winner: value, ..*old(self) }),
    {
        self.winner = value;
    }

    pub fn set_black_king_moved(&mut self, value: bool)
        requires
            old(self).inv(),
        ensures
            final(self).inv(),
            *final(self) == (BoardState { black_king_moved: value, ..*old(self) }),
    {
        self.black_king_moved = value;
    }

    pub fn set_white_king_moved(&mut self, value: bool)
        requires
            old(self).inv(),
        ensures
            final(self).inv(),
            *final(self) == (BoardState { white_king_moved: value, ..*old(self) }),
    {
        self.white_king_moved = value;
    }

    /// Increment the full-move counter, saturating at the i8 maximum.
    pub fn increment_full_moves(&mut self)
        requires
            old(self).inv(),
        ensures
            final(self).inv(),
            *final(self) == (BoardState {
                full_moves: (if old(self).full_moves < 127 {
                    old(self).full_moves + 1
                } else {
                    old(self).full_moves as int
                }) as i8,
                ..*old(self)
            }),
    {
        if self.full_moves < 127 {
            self.full_moves = self.full_moves + 1;
        }
    }

    pub fn append_black_capture(&mut self, piece_value: i8)
        requires
            old(self).inv(),
        ensures
            final(self).inv(),
            final(self).black_captures@ == old(self).black_captures@.push(piece_value),
            *final(self) == (BoardState {
                black_captures: final(self).black_captures,
                ..*old(self)
            }),
    {
        self.black_captures.push(piece_value)
    }

    pub fn append_white_capture(&mut self, piece_value: i8)
        requires
            old(self).inv(),
        ensures
            final(self).inv(),
            final(self).white_captures@ == old(self).white_captures@.push(piece_value),
            *final(self) == (BoardState {
                white_captures: final(self).white_captures,
                ..*old(self)
            }),
    {
        self.white_captures.push(piece_value)
    }

    pub fn set_white_move(&mut self, white_move: bool)
        requires
            old(self).inv(),
        ensures
            final(self).inv(),
            final(self).white_move == white_move,
            *final(self) == (BoardState {
                white_move,
                zobrist: final(self).zobrist,
                ..*old(self)
            }),
            final(self).zobrist.keys == old(self).zobrist.keys,
    {
        if self.white_move != white_move {
            let ghost k = (*self.zobrist.keys).white_to_move;
            let ghost f1 = spec_flag(self.white_move, k);
            self.zobrist.hash = self.zobrist.hash ^ self.zobrist.keys.white_to_move;
            self.white_move = white_move;
            proof {
                lemma_xor_self(k);
                lemma_xor_zero(k);
                self.lemma_flag_toggle(*old(self), f1 ^ k, 1, k);
            }
        }
    }

    /// Set the black en-passant target; the hash's marker key is toggled
    /// when the presence of a target changes.
    pub fn set_black_en_passant(&mut self, value: i8)
        requires
            old(self).inv(),
            value == -1 || 0 <= value < 64,
        ensures
            final(self).inv(),
            final(self).black_en_passant == value,
            *final(self) == (BoardState {
                black_en_passant: value,
                zobrist: final(self).zobrist,
                ..*old(self)
            }),
            final(self).zobrist.keys == old(self).zobrist.keys,
    {
        if (self.black_en_passant != -1) != (value != -1) {
            let ghost k = (*self.zobrist.keys).black_pawn_en_passant;
            let ghost f4 = spec_flag(self.black_en_passant != -1, k);
            self.zobrist.hash = self.zobrist.hash ^ self.zobrist.keys.black_pawn_en_passant;
            self.black_en_passant = value;
            proof {
                lemma_xor_self(k);
                lemma_xor_zero(k);
                self.lemma_flag_toggle(*old(self), f4 ^ k, 4, k);
            }
        } else {
            self.black_en_passant = value;
        }
    }

    /// Set the white en-passant target; the hash's marker key is toggled
    /// when the presence of a target changes.
    pub fn set_white_en_passant(&mut self, value: i8)
        requires
            old(self).inv(),
            value == -1 || 0 <= value < 64,
        ensures
            final(self).inv(),
            final(self).white_en_passant == value,
            *final(self) == (BoardState {
                white_en_passant: value,
                zobrist: final(self).zobrist,
                ..*old(self)
            }),
            final(self).zobrist.keys == old(self).zobrist.keys,
    {
        if (self.white_en_passant != -1) != (value != -1) {
            let ghost k = (*self.zobrist.keys).white_pawn_en_passant;
            let ghost f7 = spec_flag(self.white_en_passant != -1, k);
            self.zobrist.hash = self.zobrist.hash ^ self.zobrist.keys.white_pawn_en_passant;
            self.white_en_passant = value;
            proof {
                lemma_xor_self(k);
                lemma_xor_zero(k);
                self.lemma_flag_toggle(*old(self), f7 ^ k, 7, k);
            }
        } else {
            self.white_en_passant = value;
        }
    }

    pub fn set_white_able_to_king_side_castle(&mut self, value: bool)
        requires
            old(self).inv(),
        ensures
            final(self).inv(),
            final(self).white_able_to_king_side_castle == value,
            *final(self) == (BoardState {
                white_able_to_king_side_castle: value,
                zobrist: final(self).zobrist,
                ..*old(self)
            }),
            final(self).zobrist.keys == old(self).zobrist.keys,
    {
        if self.white_able_to_king_side_castle != value {
            let ghost k = (*self.zobrist.keys).white_can_rook_castle;
            let ghost f5 = spec_flag(self.white_able_to_king_side_castle, k);
            self.zobrist.hash = self.zobrist.hash ^ self.zobrist.keys.white_can_rook_castle;
            self.white_able_to_king_side_castle = value;
            proof {
                lemma_xor_self(k);
                lemma_xor_zero(k);
                self.lemma_flag_toggle(*old(self), f5 ^ k, 5, k);
            }
        }
    }

    pub fn set_white_able_to_queen_side_castle(&mut self, value: bool)
        requires
            old(self).inv(),
        ensures
            final(self).inv(),
            final(self).white_able_to_queen_side_castle == value,
            *final(self) == (BoardState {
                white_able_to_queen_side_castle: value,
                zobrist: final(self).zobrist,
                ..*old(self)
            }),
            final(self).zobrist.keys == old(self).zobrist.keys,
    {
        if self.white_able_to_queen_side_castle != value {
            let ghost k = (*self.zobrist.keys).white_can_queen_castle;
            let ghost f6 = spec_flag(self.white_able_to_queen_side_castle, k);
            self.zobrist.hash = self.zobrist.hash ^ self.zobrist.keys.white_can_queen_castle;
            self.white_able_to_queen_side_castle = value;
            proof {
                lemma_xor_self(k);
                lemma_xor_zero(k);
                self.lemma_flag_toggle(*old(self), f6 ^ k, 6, k);
            }
        }
    }

    pub fn set_black_able_to_king_side_castle(&mut self, value: bool)
        requires
            old(self).inv(),
        ensures
            final(self).inv(),
            final(self).black_able_to_king_side_castle == value,
            *final(self) == (BoardState {
                black_able_to_king_side_castle: value,
                zobrist: final(self).zobrist,
                ..*old(self)
            }),
            final(self).zobrist.keys == old(self).zobrist.keys,
    {
        if self.black_able_to_king_side_castle != value {
            let ghost k = (*self.zobrist.keys).black_can_rook_castle;
            let ghost f2 = spec_flag(self.black_able_to_king_side_castle, k);
            self.zobrist.hash = self.zobrist.hash ^ self.zobrist.keys.black_can_rook_castle;
            self.black_able_to_king_side_castle = value;
            proof {
                lemma_xor_self(k);
                lemma_xor_zero(k);
                self.lemma_flag_toggle(*old(self), f2 ^ k, 2, k);
            }
        }
    }

    pub fn set_black_able_to_queen_side_castle(&mut self, value: bool)
        requires
            old(self).inv(),
        ensures
            final(self).inv(),
            final(self).black_able_to_queen_side_castle == value,
            *final(self) == (BoardState {
                black_able_to_queen_side_castle: value,
                zobrist: final(self).zobrist,
                ..*old(self)
            }),
            final(self).zobrist.keys == old(self).zobrist.keys,
    {
        if self.black_able_to_queen_side_castle != value {
            let ghost k = (*self.zobrist.keys).black_can_queen_castle;
            let ghost f3 = spec_flag(self.black_able_to_queen_side_castle, k);
            self.zobrist.hash = self.zobrist.hash ^ self.zobrist.keys.black_can_queen_castle;
            self.black_able_to_queen_side_castle = value;
            proof {
                lemma_xor_self(k);
                lemma_xor_zero(k);
                self.lemma_flag_toggle(*old(self), f3 ^ k, 3, k);
            }
        }
    }

    /// Shared hash argument for every flag toggle: the self state equals
    /// the old state except that the flag at `position` in the flag
    /// chain moved by XOR `k`, and the hash moved by XOR `k` as well.
    proof fn lemma_flag_toggle(self, prev: BoardState, new_flag: u64, position: int, k: u64)
        requires
            prev.inv(),
            self.squares@ == prev.squares@,
            self.zobrist.keys == prev.zobrist.keys,
            self.zobrist.hash == prev.zobrist.hash ^ k,
            1 <= position <= 7,
            spec_flag_at(self, position) == new_flag,
            new_flag == spec_flag_at(prev, position) ^ k,
            forall|p: int| 1 <= p <= 7 && p != position ==> spec_flag_at(self, p) == spec_flag_at(prev, p),
        ensures
            self.hash_ok(),
    {
        let keys = *prev.zobrist.keys;
        let f1 = spec_flag_at(prev, 1);
        let f2 = spec_flag_at(prev, 2);
        let f3 = spec_flag_at(prev, 3);
        let f4 = spec_flag_at(prev, 4);
        let f5 = spec_flag_at(prev, 5);
        let f6 = spec_flag_at(prev, 6);
        let f7 = spec_flag_at(prev, 7);
        lemma_flags_reshuffle(f1, f2, f3, f4, f5, f6, f7, k);
        let bx = spec_board_xor(keys, prev.squares@, 64);
        lemma_xor_shuffle(prev.spec_flags(), k, bx);
        assert(spec_board_xor(keys, self.squares@, 64) == bx) by {
            lemma_board_xor_same(keys, self.squares@, prev.squares@, 64);
        }
    }
}

/// The flag chain of a position, link by link, in hash order: side to
/// move, black king-side right, black queen-side right, black en-passant
/// marker, white king-side right, white queen-side right, white
/// en-passant marker.
pub open spec fn spec_flag_at(state: BoardState, position: int) -> u64 {
    let keys = *state.zobrist.keys;
    if position == 1 {
        spec_flag(state.white_move, keys.white_to_move)
    } else if position == 2 {
        spec_flag(state.black_able_to_king_side_castle, keys.black_can_rook_castle)
    } else if position == 3 {
        spec_flag(state.black_able_to_queen_side_castle, keys.black_can_queen_castle)
    } else if position == 4 {
        spec_flag(state.black_en_passant != -1, keys.black_pawn_en_passant)
    } else if position == 5 {
        spec_flag(state.white_able_to_king_side_castle, keys.white_can_rook_castle)
    } else if position == 6 {
        spec_flag(state.white_able_to_queen_side_castle, keys.white_can_queen_castle)
    } else {
        spec_flag(state.white_en_passant != -1, keys.white_pawn_en_passant)
    }
}

/// Equal square sequences give equal board XORs.
pub proof fn lemma_board_xor_same(
    keys: crate::zobrist::ZobristKeys,
    s1: Seq<i8>,
    s2: Seq<i8>,
    n: int,
)
    requires
        forall|i: int| 0 <= i < n ==> s1[i] == s2[i],
    ensures
        spec_board_xor(keys, s1, n) == spec_board_xor(keys, s2, n),
    decreases n,
{
    if n > 0 {
        lemma_board_xor_same(keys, s1, s2, n - 1);
    }
}

impl BoardState {
    /// Clear the castling right tied to one of the four original rook
    /// squares: 0 and 7 for black's queen- and king-side rooks, 56 and
    /// 63 for white's.
    pub fn update_castling_ability(&mut self, index: i8, is_black: bool, is_king_side: bool)
        requires
            old(self).inv(),
        ensures
            final(self).inv(),
            final(self).black_able_to_queen_side_castle == (if index == 0 && is_black
                && !is_king_side {
                false
            } else {
                old(self).black_able_to_queen_side_castle
            }),
            final(self).black_able_to_king_side_castle == (if index == 7 && is_black
                && is_king_side {
                false
            } else {
                old(self).black_able_to_king_side_castle
            }),
            final(self).white_able_to_queen_side_castle == (if index == 56 && !is_black
                && !is_king_side {
                false
            } else {
                old(self).white_able_to_queen_side_castle
            }),
            final(self).white_able_to_king_side_castle == (if index == 63 && !is_black
                && is_king_side {
                false
            } else {
                old(self).white_able_to_king_side_castle
            }),
            final(self).squares@ == old(self).squares@,
            final(self).white_move == old(self).white_move,
            final(self).white_en_passant == old(self).white_en_passant,
            final(self).black_en_passant == old(self).black_en_passant,
            final(self).white_king_moved == old(self).white_king_moved,
            final(self).black_king_moved == old(self).black_king_moved,
            final(self).white_king_position == old(self).white_king_position,
            final(self).black_king_position == old(self).black_king_position,
            final(self).white_captures@ == old(self).white_captures@,
            final(self).black_captures@ == old(self).black_captures@,
            final(self).half_moves == old(self).half_moves,
            final(self).full_moves == old(self).full_moves,
            final(self).winner == old(self).winner,
            final(self).zobrist.keys == old(self).zobrist.keys,
    {
        if index == 0 && is_black && !is_king_side {
            self.set_black_able_to_queen_side_castle(false);
        } else if index == 7 && is_black && is_king_side {
            self.set_black_able_to_king_side_castle(false);
        } else if index == 56 && !is_black && !is_king_side {
            self.set_white_able_to_queen_side_castle(false);
        } else if index == 63 && !is_black && is_king_side {
            self.set_white_able_to_king_side_castle(false);
        }
    }
}

/// One character of whitespace, as FEN fields are separated.
pub open spec fn spec_is_space(c: char) -> bool {
    c == ' ' || c == '\t' || c == '\n' || c == '\r'
}

/// Splitting state after some prefix: the finished fields and the field
/// being collected.
pub open spec fn spec_split_step(
    state: (Seq<Seq<char>>, Seq<char>),
    c: char,
) -> (Seq<Seq<char>>, Seq<char>) {
    if spec_is_space(c) {
        if state.1.len() > 0 {
            (state.0.push(state.1), Seq::<char>::empty())
        } else {
            state
        }
    } else {
        (state.0, state.1.push(c))
    }
}

pub open spec fn spec_split_fold(s: Seq<char>, n: int) -> (Seq<Seq<char>>, Seq<char>)
    decreases n,
{
    if n <= 0 {
        (Seq::<Seq<char>>::empty(), Seq::<char>::empty())
    } else {
        spec_split_step(spec_split_fold(s, n - 1), s[n - 1])
    }
}

/// The whitespace-separated fields of a string.
pub open spec fn spec_fields(s: Seq<char>) -> Seq<Seq<char>> {
    let st = spec_split_fold(s, s.len() as int);
    if st.1.len() > 0 {
        st.0.push(st.1)
    } else {
        st.0
    }
}

pub open spec fn spec_is_fen_digit(c: char) -> bool {
    48 <= (c as u32) <= 57
}

/// Piece-placement state after some prefix of the placement field: the
/// squares, the running square index (capped at 64), and the cached
/// white and black king squares.
pub open spec fn spec_place_step(
    state: (Seq<i8>, int, int, int),
    c: char,
) -> (Seq<i8>, int, int, int) {
    if c == '/' {
        state
    } else if spec_is_fen_digit(c) {
        let d = (c as u32) - 48;
        (state.0, if state.1 + d > 64 { 64int } else { state.1 + d }, state.2, state.3)
    } else if state.1 < 64 {
        (
            state.0.update(state.1, crate::pieces::spec_piece_value_from_fen(c)),
            state.1 + 1,
            if c == 'K' { state.1 } else { state.2 },
            if c == 'k' { state.1 } else { state.3 },
        )
    } else {
        state
    }
}

pub open spec fn spec_place_fold(
    s: Seq<char>,
    n: int,
    init: (Seq<i8>, int, int, int),
) -> (Seq<i8>, int, int, int)
    decreases n,
{
    if n <= 0 {
        init
    } else {
        spec_place_step(spec_place_fold(s, n - 1, init), s[n - 1])
    }
}

/// Every placement step keeps the board 64 squares long, the running
/// index in 0..=64 and the king caches on the board.
pub proof fn lemma_place_fold_wf(s: Seq<char>, n: int, init: (Seq<i8>, int, int, int))
    requires
        init.0.len() == 64,
        0 <= init.1 <= 64,
        0 <= init.2 < 64,
        0 <= init.3 < 64,
    ensures
        spec_place_fold(s, n, init).0.len() == 64,
        0 <= spec_place_fold(s, n, init).1 <= 64,
        0 <= spec_place_fold(s, n, init).2 < 64,
        0 <= spec_place_fold(s, n, init).3 < 64,
    decreases n,
{
    if n > 0 {
        lemma_place_fold_wf(s, n - 1, init);
    }
}

/// The en-passant targets an algebraic FEN square denotes: a rank-3
/// square sets white's target, a rank-6 square black's; anything else
/// (including `-`) leaves both unset.
pub open spec fn spec_parse_ep(f: Seq<char>) -> (i8, i8) {
    if f.len() == 2 && 97 <= (f[0] as u32) <= 104 && f[1] == '3' {
        ((((f[0] as u32) - 97) + 40) as i8, -1i8)
    } else if f.len() == 2 && 97 <= (f[0] as u32) <= 104 && f[1] == '6' {
        (-1i8, (((f[0] as u32) - 97) + 16) as i8)
    } else {
        (-1i8, -1i8)
    }
}

/// Value of a digit string, capped at 1000; `None` when a character is
/// not a digit.
pub open spec fn spec_digits_val(s: Seq<char>, n: int) -> Option<int>
    decreases n,
{
    if n <= 0 {
        Some(0int)
    } else {
        match spec_digits_val(s, n - 1) {
            Option::None => Option::None,
            Option::Some(a) => if spec_is_fen_digit(s[n - 1]) {
                let v = a * 10 + ((s[n - 1] as u32) - 48);
                Some(if v > 1000 { 1000int } else { v })
            } else {
                Option::None
            },
        }
    }
}

/// The value `str::parse::<i8>` would yield, with 0 for anything it
/// rejects (empty, stray characters, out of range).
pub open spec fn spec_parse_i8(s: Seq<char>) -> i8 {
    let signed = s.len() > 0 && (s[0] == '-' || s[0] == '+');
    let digits = if signed {
        s.subrange(1, s.len() as int)
    } else {
        s
    };
    if digits.len() == 0 {
        0i8
    } else {
        match spec_digits_val(digits, digits.len() as int) {
            Option::None => 0i8,
            Option::Some(v) => {
                let sv = if s.len() > 0 && s[0] == '-' {
                    -v
                } else {
                    v
                };
                if -128 <= sv <= 127 {
                    sv as i8
                } else {
                    0i8
                }
            },
        }
    }
}

/// Collect the characters of a string slice.
pub fn str_to_chars(s: &str) -> (r: Vec<char>)
    ensures
        r@ == s@,
{
    let n = s.unicode_len();
    let mut r: Vec<char> = Vec::new();
    let mut i: usize = 0;
    while i < n
        invariant
            n == s@.len(),
            i <= n,
            r@ == s@.subrange(0, i as int),
        decreases n - i,
    {
        r.push(s.get_char(i));
        i = i + 1;
    }
    proof {
        assert(r@ =~= s@);
    }
    r
}

/// Split a character vector at whitespace, dropping empty fields.
pub fn split_whitespace_chars(chars: &Vec<char>) -> (fields: Vec<Vec<char>>)
    ensures
        fields@.len() == spec_fields(chars@).len(),
        forall|i: int|
            0 <= i < fields@.len() ==> fields@[i]@ == spec_fields(chars@)[i],
{
    let mut fields: Vec<Vec<char>> = Vec::new();
    let mut cur: Vec<char> = Vec::new();
    let mut i: usize = 0;
    while i < chars.len()
        invariant
            i <= chars@.len(),
            fields@.len() == spec_split_fold(chars@, i as int).0.len(),
            forall|j: int|
                0 <= j < fields@.len() ==> fields@[j]@ == spec_split_fold(chars@, i as int).0[j],
            cur@ == spec_split_fold(chars@, i as int).1,
        decreases chars@.len() - i,
    {
        let c = chars[i];
        if c == ' ' || c == '\t' || c == '\n' || c == '\r' {
            if cur.len() > 0 {
                fields.push(cur);
                cur = Vec::new();
            }
        } else {
            cur.push(c);
        }
        i = i + 1;
    }
    if cur.len() > 0 {
        fields.push(cur);
    }
    fields
}

/// Parse a decimal counter as `str::parse::<i8>` would, with 0 for
/// anything rejected.
pub fn parse_i8_field(field: &Vec<char>) -> (v: i8)
    ensures
        v == spec_parse_i8(field@),
{
    let signed = field.len() > 0 && (field[0] == '-' || field[0] == '+');
    let start: usize = if signed {
        1
    } else {
        0
    };
    let ghost digits = if signed {
        field@.subrange(1, field@.len() as int)
    } else {
        field@
    };
    if field.len() == start {
        return 0;
    }
    let mut acc: u32 = 0;
    let mut ok = true;
    let mut i: usize = start;
    while i < field.len()
        invariant
            start <= i <= field@.len(),
            start == (if signed { 1int } else { 0int }),
            digits == field@.subrange(start as int, field@.len() as int),
            digits.len() == field@.len() - start,
            ok ==> Some(acc as int) == spec_digits_val(digits, i - start),
            !ok ==> spec_digits_val(digits, digits.len() as int) is None,
            acc <= 1000,
        decreases field@.len() - i,
    {
        let c = field[i];
        let u = c as u32;
        proof {
            assert(digits[i - start] == field@[i as int]);
        }
        if ok {
            if 48 <= u && u <= 57 {
                acc = acc * 10 + (u - 48);
                if acc > 1000 {
                    acc = 1000;
                }
            } else {
                ok = false;
                proof {
                    lemma_digits_val_none(digits, i - start + 1, digits.len() as int);
                }
            }
        }
        i = i + 1;
    }
    if !ok {
        return 0;
    }
    if signed && field[0] == '-' {
        if acc <= 128 {
            let neg: i32 = 0 - (acc as i32);
            return neg as i8;
        }
        return 0;
    }
    if acc <= 127 {
        return acc as i8;
    }
    0
}

/// A rejected character anywhere rejects the whole digit string.
pub proof fn lemma_digits_val_none(s: Seq<char>, from: int, to: int)
    requires
        0 < from <= to <= s.len(),
        spec_digits_val(s, from) is None,
    ensures
        spec_digits_val(s, to) is None,
    decreases to - from,
{
    if from < to {
        lemma_digits_val_none(s, from + 1, to);
    }
}

/// The `i`-th whitespace-separated field of a string, or a default when
/// the string has fewer fields.
pub open spec fn spec_fen_field(s: Seq<char>, i: int, dflt: Seq<char>) -> Seq<char> {
    if spec_fields(s).len() > i {
        spec_fields(s)[i]
    } else {
        dflt
    }
}

/// Whether a character vector holds a character.
pub fn contains_char(field: &Vec<char>, c: char) -> (r: bool)
    ensures
        r == field@.contains(c),
{
    let mut i: usize = 0;
    while i < field.len()
        invariant
            i <= field@.len(),
            forall|j: int| 0 <= j < i ==> field@[j] != c,
        decreases field@.len() - i,
    {
        if field[i] == c {
            return true;
        }
        i = i + 1;
    }
    false
}

impl BoardState {
    /// Piece placement: walk the first FEN field left to right, skipping
    /// run lengths, placing a piece for each letter and caching the two
    /// king squares.
    fn generate_pieces_from_fen(&mut self, board_rows: &Vec<char>)
        requires
            old(self).inv(),
        ensures
            final(self).inv(),
            ({
                let st = spec_place_fold(
                    board_rows@,
                    board_rows@.len() as int,
                    (
                        old(self).squares@,
                        0int,
                        old(self).white_king_position as int,
                        old(self).black_king_position as int,
                    ),
                );
                final(self).squares@ == st.0 && final(self).white_king_position == st.2
                    && final(self).black_king_position == st.3
            }),
            final(self).white_move == old(self).white_move,
            final(self).white_able_to_king_side_castle == old(self).white_able_to_king_side_castle,
            final(self).white_able_to_queen_side_castle == old(self).white_able_to_queen_side_castle,
            final(self).black_able_to_king_side_castle == old(self).black_able_to_king_side_castle,
            final(self).black_able_to_queen_side_castle == old(self).black_able_to_queen_side_castle,
            final(self).white_en_passant == old(self).white_en_passant,
            final(self).black_en_passant == old(self).black_en_passant,
            final(self).white_king_moved == old(self).white_king_moved,
            final(self).black_king_moved == old(self).black_king_moved,
            final(self).white_captures@ == old(self).white_captures@,
            final(self).black_captures@ == old(self).black_captures@,
            final(self).half_moves == old(self).half_moves,
            final(self).full_moves == old(self).full_moves,
            final(self).winner == old(self).winner,
            final(self).zobrist.keys == old(self).zobrist.keys,
    {
        let ghost init = (
            old(self).squares@,
            0int,
            old(self).white_king_position as int,
            old(self).black_king_position as int,
        );
        let mut pos: usize = 0;
        let mut i: usize = 0;
        while i < board_rows.len()
            invariant
                i <= board_rows@.len(),
                self.inv(),
                pos <= 64,
                ({
                    let st = spec_place_fold(board_rows@, i as int, init);
                    self.squares@ == st.0 && pos == st.1 && self.white_king_position == st.2
                        && self.black_king_position == st.3
                }),
                self.white_move == old(self).white_move,
                self.white_able_to_king_side_castle == old(self).white_able_to_king_side_castle,
                self.white_able_to_queen_side_castle == old(self).white_able_to_queen_side_castle,
                self.black_able_to_king_side_castle == old(self).black_able_to_king_side_castle,
                self.black_able_to_queen_side_castle == old(self).black_able_to_queen_side_castle,
                self.white_en_passant == old(self).white_en_passant,
                self.black_en_passant == old(self).black_en_passant,
                self.white_king_moved == old(self).white_king_moved,
                self.black_king_moved == old(self).black_king_moved,
                self.white_captures@ == old(self).white_captures@,
                self.black_captures@ == old(self).black_captures@,
                self.half_moves == old(self).half_moves,
                self.full_moves == old(self).full_moves,
                self.winner == old(self).winner,
                self.zobrist.keys == old(self).zobrist.keys,
            decreases board_rows@.len() - i,
        {
            let c = board_rows[i];
            let u = c as u32;
            if c == '/' {
                // row separator: the running index already advanced
            } else if 48 <= u && u <= 57 {
                let d = (u - 48) as usize;
                if pos + d > 64 {
                    pos = 64;
                } else {
                    pos = pos + d;
                }
            } else if pos < 64 {
                let v = crate::pieces::piece_value_from_fen(&c);
                self.place_piece(pos as i8, v);
                pos = pos + 1;
            }
            i = i + 1;
        }
    }

    fn load_active_color(&mut self, active_color: &Vec<char>)
        requires
            old(self).inv(),
        ensures
            final(self).inv(),
            final(self).white_move == !(active_color@ == seq!['b']),
            *final(self) == (BoardState {
                white_move: final(self).white_move,
                zobrist: final(self).zobrist,
                ..*old(self)
            }),
            final(self).zobrist.keys == old(self).zobrist.keys,
    {
        if active_color.len() == 1 && active_color[0] == 'b' {
            proof {
                assert(active_color@ =~= seq!['b']);
            }
            self.set_white_move(false);
        } else {
            self.set_white_move(true);
        }
    }

    fn load_castling(&mut self, castling: &Vec<char>)
        requires
            old(self).inv(),
        ensures
            final(self).inv(),
            castling@ == seq!['-'] ==> !final(self).white_able_to_king_side_castle
                && !final(self).white_able_to_queen_side_castle && !final(self).black_able_to_king_side_castle && !final(self).black_able_to_queen_side_castle
                && final(self).white_king_moved && final(self).black_king_moved,
            castling@ != seq!['-'] ==> final(self).white_able_to_king_side_castle == castling@.contains('K')
                && final(self).white_able_to_queen_side_castle == castling@.contains('Q')
                && final(self).black_able_to_king_side_castle == castling@.contains('k')
                && final(self).black_able_to_queen_side_castle == castling@.contains('q')
                && !final(self).white_king_moved && !final(self).black_king_moved,
            final(self).squares@ == old(self).squares@,
            final(self).white_move == old(self).white_move,
            final(self).white_en_passant == old(self).white_en_passant,
            final(self).black_en_passant == old(self).black_en_passant,
            final(self).white_king_position == old(self).white_king_position,
            final(self).black_king_position == old(self).black_king_position,
            final(self).white_captures@ == old(self).white_captures@,
            final(self).black_captures@ == old(self).black_captures@,
            final(self).half_moves == old(self).half_moves,
            final(self).full_moves == old(self).full_moves,
            final(self).winner == old(self).winner,
            final(self).zobrist.keys == old(self).zobrist.keys,
    {
        if castling.len() == 1 && castling[0] == '-' {
            proof {
                assert(castling@ =~= seq!['-']);
            }
            self.set_black_able_to_queen_side_castle(false);
            self.set_black_able_to_king_side_castle(false);
            self.set_white_able_to_queen_side_castle(false);
            self.set_white_able_to_king_side_castle(false);
            self.set_black_king_moved(true);
            self.set_white_king_moved(true);
        } else {
            let wk = contains_char(castling, 'K');
            let wq = contains_char(castling, 'Q');
            let bk = contains_char(castling, 'k');
            let bq = contains_char(castling, 'q');
            self.set_white_able_to_king_side_castle(wk);
            self.set_white_able_to_queen_side_castle(wq);
            self.set_black_able_to_king_side_castle(bk);
            self.set_black_able_to_queen_side_castle(bq);
            self.set_white_king_moved(false);
            self.set_black_king_moved(false);
        }
    }

    fn load_en_passant(&mut self, en_passant: &Vec<char>)
        requires
            old(self).inv(),
        ensures
            final(self).inv(),
            final(self).white_en_passant == spec_parse_ep(en_passant@).0,
            final(self).black_en_passant == spec_parse_ep(en_passant@).1,
            final(self).squares@ == old(self).squares@,
            final(self).white_move == old(self).white_move,
            final(self).white_able_to_king_side_castle == old(self).white_able_to_king_side_castle,
            final(self).white_able_to_queen_side_castle == old(self).white_able_to_queen_side_castle,
            final(self).black_able_to_king_side_castle == old(self).black_able_to_king_side_castle,
            final(self).black_able_to_queen_side_castle == old(self).black_able_to_queen_side_castle,
            final(self).white_king_moved == old(self).white_king_moved,
            final(self).black_king_moved == old(self).black_king_moved,
            final(self).white_king_position == old(self).white_king_position,
            final(self).black_king_position == old(self).black_king_position,
            final(self).white_captures@ == old(self).white_captures@,
            final(self).black_captures@ == old(self).black_captures@,
            final(self).half_moves == old(self).half_moves,
            final(self).full_moves == old(self).full_moves,
            final(self).winner == old(self).winner,
            final(self).zobrist.keys == old(self).zobrist.keys,
    {
        if en_passant.len() == 2 {
            let col = en_passant[0] as u32;
            let row = en_passant[1];
            if 97 <= col && col <= 104 && row == '3' {
                self.set_white_en_passant(((col - 97) + 40) as i8);
                self.set_black_en_passant(-1);
                return ;
            }
            if 97 <= col && col <= 104 && row == '6' {
                self.set_white_en_passant(-1);
                self.set_black_en_passant(((col - 97) + 16) as i8);
                return ;
            }
        }
        self.set_white_en_passant(-1);
        self.set_black_en_passant(-1);
    }

    fn load_half_move_clock(&mut self, half_move: &Vec<char>)
        requires
            old(self).inv(),
        ensures
            final(self).inv(),
            *final(self) == (BoardState {
                half_moves: spec_parse_i8(half_move@),
                ..*old(self)
            }),
    {
        self.half_moves = parse_i8_field(half_move);
    }

    fn load_full_move_number(&mut self, moves: &Vec<char>)
        requires
            old(self).inv(),
        ensures
            final(self).inv(),
            *final(self) == (BoardState { full_moves: spec_parse_i8(moves@), ..*old(self) }),
    {
        self.full_moves = parse_i8_field(moves);
    }

    /// Load a position from a FEN string: piece placement, active color,
    /// castling rights, en-passant target, and the two counters.
    /// Missing trailing fields default to no rights, no target and zero
    /// counters; the capture lists and the winner code are not touched.
    pub fn load_position(&mut self, fen_position: &str)
        requires
            old(self).inv(),
        ensures
            final(self).inv(),
            ({
                let st = spec_place_fold(
                    spec_fen_field(fen_position@, 0, Seq::<char>::empty()),
                    spec_fen_field(fen_position@, 0, Seq::<char>::empty()).len() as int,
                    (
                        old(self).squares@,
                        0int,
                        old(self).white_king_position as int,
                        old(self).black_king_position as int,
                    ),
                );
                final(self).squares@ == st.0 && final(self).white_king_position == st.2
                    && final(self).black_king_position == st.3
            }),
            final(self).white_move == !(spec_fen_field(fen_position@, 1, seq!['w'])
                == seq!['b']),
            ({
                let cf = spec_fen_field(fen_position@, 2, seq!['-']);
                if cf == seq!['-'] {
                    !final(self).white_able_to_king_side_castle && !final(self).white_able_to_queen_side_castle && !final(self).black_able_to_king_side_castle && !final(self).black_able_to_queen_side_castle && final(self).white_king_moved && final(self).black_king_moved
                } else {
                    final(self).white_able_to_king_side_castle == cf.contains('K') && final(self).white_able_to_queen_side_castle == cf.contains('Q') && final(self).black_able_to_king_side_castle == cf.contains('k') && final(self).black_able_to_queen_side_castle == cf.contains('q') && !final(self).white_king_moved && !final(self).black_king_moved
                }
            }),
            final(self).white_en_passant == spec_parse_ep(
                spec_fen_field(fen_position@, 3, seq!['-']),
            ).0,
            final(self).black_en_passant == spec_parse_ep(
                spec_fen_field(fen_position@, 3, seq!['-']),
            ).1,
            final(self).half_moves == spec_parse_i8(
                spec_fen_field(fen_position@, 4, Seq::<char>::empty()),
            ),
            final(self).full_moves == spec_parse_i8(
                spec_fen_field(fen_position@, 5, Seq::<char>::empty()),
            ),
            final(self).white_captures@ == old(self).white_captures@,
            final(self).black_captures@ == old(self).black_captures@,
            final(self).winner == old(self).winner,
            final(self).zobrist.keys == old(self).zobrist.keys,
    {
        let chars = str_to_chars(fen_position);
        let fields = split_whitespace_chars(&chars);
        if fields.len() > 0 {
            self.generate_pieces_from_fen(&fields[0]);
        } else {
            proof {
                assert(spec_fen_field(fen_position@, 0, Seq::<char>::empty()).len() == 0);
            }
        }
        if fields.len() > 1 {
            self.load_active_color(&fields[1]);
        } else {
            self.set_white_move(true);
            proof {
                assert(spec_fen_field(fen_position@, 1, seq!['w']) != seq!['b']) by {
                    assert(seq!['w'][0] == 'w');
                    assert(seq!['b'][0] == 'b');
                }
            }
        }
        let mut dash: Vec<char> = Vec::new();
        dash.push('-');
        proof {
            assert(dash@ =~= seq!['-']);
        }
        if fields.len() > 2 {
            self.load_castling(&fields[2]);
        } else {
            self.load_castling(&dash);
        }
        if fields.len() > 3 {
            self.load_en_passant(&fields[3]);
        } else {
            self.load_en_passant(&dash);
        }
        let empty: Vec<char> = Vec::new();
        if fields.len() > 4 {
            self.load_half_move_clock(&fields[4]);
        } else {
            self.load_half_move_clock(&empty);
        }
        if fields.len() > 5 {
            self.load_full_move_number(&fields[5]);
        } else {
            self.load_full_move_number(&empty);
        }
    }
}

} // verus!
