//! One square of the board together with the moves generated for the
//! piece standing on it.

use vstd::prelude::*;

use crate::moves::PieceMove;

verus! {

#[derive(Clone, Debug)]
pub struct BoardPiece {
    pub moves: Vec<PieceMove>,
    pub position: i8,
    pub value: i8,
    pub white: bool,
}

impl BoardPiece {
    pub fn new(moves: Vec<PieceMove>, position: i8, value: i8, white: bool) -> (p: BoardPiece)
        ensures
            p.moves == moves,
            p.position == position,
            p.value == value,
            p.white == white,
    {
        BoardPiece { moves, position, value, white }
    }

    pub fn get_moves_clone(&self) -> (moves: Vec<PieceMove>)
        ensures
            moves@ == self.moves@,
    {
        let mut out: Vec<PieceMove> = Vec::new();
        let mut i: usize = 0;
        while i < self.moves.len()
            invariant
                i <= self.moves@.len(),
                out@ == self.moves@.subrange(0, i as int),
            decreases self.moves@.len() - i,
        {
            out.push(self.moves[i]);
            i = i + 1;
        }
        proof {
            assert(out@ =~= self.moves@);
        }
        out
    }

    pub fn get_moves_reference(&self) -> (moves: &Vec<PieceMove>)
        ensures
            moves == &self.moves,
    {
        &self.moves
    }

    pub fn get_position(&self) -> (v: i8)
        ensures
            v == self.position,
    {
        self.position
    }

    pub fn get_value(&self) -> (v: i8)
        ensures
            v == self.value,
    {
        self.value
    }

    pub fn is_white(&self) -> (v: bool)
        ensures
            v == self.white,
    {
        self.white
    }

    pub fn set_moves(&mut self, moves: Vec<PieceMove>)
        ensures
            *final(self) == (BoardPiece { moves, ..*old(self) }),
    {
        self.moves = moves;
    }
}

} // verus!
