//! The move record handed around by the generator, the search and the
//! make/unmake machinery.

use vstd::prelude::*;

use crate::pieces::EMPTY_PIECE;

verus! {

/// One chess move: origin and destination squares, the moving piece's
/// code, the chosen promotion piece (0 when none), and the capture /
/// promotion / en-passant flags.  `move_worth` is a transient score used
/// only by the ordering layer.
#[derive(Clone, Copy, Debug, PartialEq, Eq, Structural)]
pub struct PieceMove {
    pub from_position: i8,
    pub is_capture: bool,
    pub is_en_passant: bool,
    pub is_promotion: bool,
    pub move_worth: i32,
    pub piece_value: i8,
    pub promotion_type: i8,
    pub to_position: i8,
}

impl PieceMove {
    /// Two moves denote the same change of the game exactly when origin,
    /// destination, moving piece, promotion piece and the promotion and
    /// en-passant flags all agree; the capture flag and the transient
    /// ordering worth do not enter.
    pub open spec fn spec_same_move(self, other: PieceMove) -> bool {
        &&& self.from_position == other.from_position
        &&& self.to_position == other.to_position
        &&& self.piece_value == other.piece_value
        &&& self.promotion_type == other.promotion_type
        &&& self.is_promotion == other.is_promotion
        &&& self.is_en_passant == other.is_en_passant
    }

    pub fn new(from: i8, piece_value: i8, to: i8) -> (m: PieceMove)
        ensures
            m.from_position == from,
            m.to_position == to,
            m.piece_value == piece_value,
            m.promotion_type == EMPTY_PIECE,
            !m.is_capture,
            !m.is_en_passant,
            !m.is_promotion,
            m.move_worth == 0,
    {
        PieceMove {
            from_position: from,
            is_capture: false,
            is_en_passant: false,
            is_promotion: false,
            move_worth: 0,
            piece_value,
            promotion_type: EMPTY_PIECE,
            to_position: to,
        }
    }

    pub fn clone(&self) -> (m: PieceMove)
        ensures
            m == *self,
    {
        *self
    }

    pub fn eq(&self, piece_move: &PieceMove) -> (r: bool)
        ensures
            r == self.spec_same_move(*piece_move),
    {
        (self.from_position == piece_move.from_position)
            && (self.to_position == piece_move.to_position)
            && (self.piece_value == piece_move.piece_value)
            && (self.promotion_type == piece_move.promotion_type)
            && (self.is_promotion == piece_move.is_promotion)
            && (self.is_en_passant == piece_move.is_en_passant)
    }

    pub fn get_from_position(&self) -> (v: i8)
        ensures
            v == self.from_position,
    {
        self.from_position
    }

    pub fn get_move_worth(&self) -> (v: i32)
        ensures
            v == self.move_worth,
    {
        self.move_worth
    }

    pub fn get_piece_value(&self) -> (v: i8)
        ensures
            v == self.piece_value,
    {
        self.piece_value
    }

    pub fn get_promotion_value(&self) -> (v: i8)
        ensures
            v == self.promotion_type,
    {
        self.promotion_type
    }

    pub fn get_to_position(&self) -> (v: i8)
        ensures
            v == self.to_position,
    {
        self.to_position
    }

    pub fn is_capture(&self) -> (v: bool)
        ensures
            v == self.is_capture,
    {
        self.is_capture
    }

    pub fn is_en_passant(&self) -> (v: bool)
        ensures
            v == self.is_en_passant,
    {
        self.is_en_passant
    }

    pub fn is_promotion(&self) -> (v: bool)
        ensures
            v == self.is_promotion,
    {
        self.is_promotion
    }

    pub fn set_from_position(&mut self, from_position: i8)
        ensures
            *final(self) == (PieceMove { from_position, ..*old(self) }),
    {
        self.from_position = from_position;
    }

    pub fn set_is_capture(&mut self, is_capture: bool)
        ensures
            *final(self) == (PieceMove { is_capture, ..*old(self) }),
    {
        self.is_capture = is_capture;
    }

    pub fn set_is_en_passant(&mut self, is_en_passant: bool)
        ensures
            *final(self) == (PieceMove { is_en_passant, ..*old(self) }),
    {
        self.is_en_passant = is_en_passant;
    }

    pub fn set_is_promotion(&mut self, is_promotion: bool)
        ensures
            *final(self) == (PieceMove { is_promotion, ..*old(self) }),
    {
        self.is_promotion = is_promotion;
    }

    pub fn set_move_worth(&mut self, move_worth: i32)
        ensures
            *final(self) == (PieceMove { move_worth, ..*old(self) }),
    {
        self.move_worth = move_worth;
    }

    pub fn set_piece_value(&mut self, piece_value: i8)
        ensures
            *final(self) == (PieceMove { piece_value, ..*old(self) }),
    {
        self.piece_value = piece_value;
    }

    pub fn set_promotion_value(&mut self, promotion_type: i8)
        ensures
            *final(self) == (PieceMove { promotion_type, ..*old(self) }),
    {
        self.promotion_type = promotion_type;
    }

    pub fn set_to_position(&mut self, to_position: i8)
        ensures
            *final(self) == (PieceMove { to_position, ..*old(self) }),
    {
        self.to_position = to_position;
    }

    pub fn sum_to_move_worth(&mut self, value: i32)
        requires
            i32::MIN <= old(self).move_worth + value <= i32::MAX,
        ensures
            *final(self) == (PieceMove {
                move_worth: (old(self).move_worth + value) as i32,
                ..*old(self)
            }),
    {
        self.move_worth = self.move_worth + value;
    }
}

} // verus!
