//! Numeric piece encoding shared by the whole engine.
//!
//! A square holds one signed byte: 0 for empty, otherwise a color bit
//! (black = 8, white = 16) or-ed with a type code (bishop = 1, king = 2,
//! knight = 3, pawn = 4, queen = 5, rook = 6).  Every value in 17..=22 is
//! a white piece and every value in 9..=14 is a black piece.

use vstd::prelude::*;

verus! {

#[derive(Clone, Copy, Debug, PartialEq, Eq, Structural)]
pub enum PieceType {
    Empty,
    Bishop,
    King,
    Knight,
    Pawn,
    Queen,
    Rook,
}

#[derive(Clone, Copy, Debug, PartialEq, Eq, Structural)]
pub enum PieceColor {
    Black,
    White,
}

pub const EMPTY_PIECE: i8 = 0;

pub const WHITE_LOWER_BOUND: i8 = 17;

pub const WHITE_UPPER_BOUND: i8 = 22;

pub const BLACK_LOWER_BOUND: i8 = 9;

pub const BLACK_UPPER_BOUND: i8 = 14;

pub const BISHOP_WORTH: i32 = 300;

pub const KING_WORTH: i32 = 20000;

pub const KNIGHT_WORTH: i32 = 300;

pub const PAWN_WORTH: i32 = 100;

pub const QUEEN_WORTH: i32 = 900;

pub const ROOK_WORTH: i32 = 500;

pub const INITIAL_FEN: &'static str = "rnbqkbnr/pppppppp/8/8/8/8/PPPPPPPP/RNBQKBNR w KQkq - 0 1";

impl PieceType {
    /// The numeric type code of this piece type.
    pub open spec fn spec_value(self) -> i8 {
        match self {
            PieceType::Empty => 0,
            PieceType::Bishop => 1,
            PieceType::King => 2,
            PieceType::Knight => 3,
            PieceType::Pawn => 4,
            PieceType::Queen => 5,
            PieceType::Rook => 6,
        }
    }

    pub fn value(&self) -> (v: i8)
        ensures
            v == self.spec_value(),
    {
        match self {
            PieceType::Empty => 0,
            PieceType::Bishop => 1,
            PieceType::King => 2,
            PieceType::Knight => 3,
            PieceType::Pawn => 4,
            PieceType::Queen => 5,
            PieceType::Rook => 6,
        }
    }
}

impl PieceColor {
    /// The color bit of this color: black = 8, white = 16.
    pub open spec fn spec_value(self) -> i8 {
        match self {
            PieceColor::Black => 8,
            PieceColor::White => 16,
        }
    }

    pub fn value(&self) -> (v: i8)
        ensures
            v == self.spec_value(),
    {
        match self {
            PieceColor::Black => 8,
            PieceColor::White => 16,
        }
    }
}

/// A value is a white piece exactly when it lies in 17..=22.
pub open spec fn spec_is_white(piece_value: i8) -> bool {
    WHITE_LOWER_BOUND <= piece_value <= WHITE_UPPER_BOUND
}

/// A value is a black piece exactly when it lies in 9..=14.
pub open spec fn spec_is_black(piece_value: i8) -> bool {
    BLACK_LOWER_BOUND <= piece_value <= BLACK_UPPER_BOUND
}

/// A value encodes a piece (or the empty square) exactly when it is 0,
/// a black code, or a white code.
pub open spec fn spec_is_piece_code(piece_value: i8) -> bool {
    piece_value == EMPTY_PIECE || spec_is_black(piece_value) || spec_is_white(piece_value)
}

/// The type encoded by a piece value; values outside the encoding map to
/// `Empty`.
pub open spec fn spec_piece_type(piece_value: i8) -> PieceType {
    if piece_value == 17 || piece_value == 9 {
        PieceType::Bishop
    } else if piece_value == 18 || piece_value == 10 {
        PieceType::King
    } else if piece_value == 19 || piece_value == 11 {
        PieceType::Knight
    } else if piece_value == 20 || piece_value == 12 {
        PieceType::Pawn
    } else if piece_value == 21 || piece_value == 13 {
        PieceType::Queen
    } else if piece_value == 22 || piece_value == 14 {
        PieceType::Rook
    } else {
        PieceType::Empty
    }
}

/// The material worth of a piece value; 0 outside the encoding.
pub open spec fn spec_piece_worth(piece_value: i8) -> i32 {
    match spec_piece_type(piece_value) {
        PieceType::Empty => 0,
        PieceType::Bishop => BISHOP_WORTH,
        PieceType::King => KING_WORTH,
        PieceType::Knight => KNIGHT_WORTH,
        PieceType::Pawn => PAWN_WORTH,
        PieceType::Queen => QUEEN_WORTH,
        PieceType::Rook => ROOK_WORTH,
    }
}

/// The piece value a FEN letter denotes; anything that is not one of the
/// twelve piece letters maps to the empty piece.
pub open spec fn spec_piece_value_from_fen(piece_fen: char) -> i8 {
    match piece_fen {
        'B' => 17,
        'K' => 18,
        'N' => 19,
        'P' => 20,
        'Q' => 21,
        'R' => 22,
        'b' => 9,
        'k' => 10,
        'n' => 11,
        'p' => 12,
        'q' => 13,
        'r' => 14,
        _ => 0,
    }
}

/// The FEN spelling of a piece value; empty for anything that is not one
/// of the twelve piece codes.
pub open spec fn spec_piece_fen_from_value(piece_value: i8) -> Seq<char> {
    match piece_value {
        17 => seq!['B'],
        18 => seq!['K'],
        19 => seq!['N'],
        20 => seq!['P'],
        21 => seq!['Q'],
        22 => seq!['R'],
        9 => seq!['b'],
        10 => seq!['k'],
        11 => seq!['n'],
        12 => seq!['p'],
        13 => seq!['q'],
        14 => seq!['r'],
        _ => Seq::<char>::empty(),
    }
}

pub fn is_white_piece(piece_value: i8) -> (r: bool)
    ensures
        r == spec_is_white(piece_value),
{
    WHITE_LOWER_BOUND <= piece_value && piece_value <= WHITE_UPPER_BOUND
}

pub fn is_same_color(piece1: i8, piece2: i8) -> (r: bool)
    ensures
        r == (spec_is_white(piece1) == spec_is_white(piece2)),
{
    is_white_piece(piece1) == is_white_piece(piece2)
}

pub fn get_piece_type(piece_value: i8) -> (t: PieceType)
    ensures
        t == spec_piece_type(piece_value),
{
    match piece_value {
        17 | 9 => PieceType::Bishop,
        18 | 10 => PieceType::King,
        19 | 11 => PieceType::Knight,
        20 | 12 => PieceType::Pawn,
        21 | 13 => PieceType::Queen,
        22 | 14 => PieceType::Rook,
        _ => PieceType::Empty,
    }
}

pub fn is_piece_of_type(piece: i8, piece_type: PieceType) -> (r: bool)
    ensures
        r == (spec_piece_type(piece) == piece_type),
{
    get_piece_type(piece) == piece_type
}

pub fn get_piece_worth(piece_value: i8) -> (w: i32)
    ensures
        w == spec_piece_worth(piece_value),
{
    match piece_value {
        17 | 9 => BISHOP_WORTH,
        18 | 10 => KING_WORTH,
        19 | 11 => KNIGHT_WORTH,
        20 | 12 => PAWN_WORTH,
        21 | 13 => QUEEN_WORTH,
        22 | 14 => ROOK_WORTH,
        _ => 0,
    }
}

pub fn piece_value_from_fen(piece_fen: &char) -> (v: i8)
    ensures
        v == spec_piece_value_from_fen(*piece_fen),
{
    match *piece_fen {
        'B' => 17,
        'K' => 18,
        'N' => 19,
        'P' => 20,
        'Q' => 21,
        'R' => 22,
        'b' => 9,
        'k' => 10,
        'n' => 11,
        'p' => 12,
        'q' => 13,
        'r' => 14,
        _ => 0,
    }
}

pub fn piece_fen_from_value(piece_value: i8) -> (s: String)
    ensures
        s@ == spec_piece_fen_from_value(piece_value),
{
    let s: String = match piece_value {
        17 => "B".to_owned(),
        18 => "K".to_owned(),
        19 => "N".to_owned(),
        20 => "P".to_owned(),
        21 => "Q".to_owned(),
        22 => "R".to_owned(),
        9 => "b".to_owned(),
        10 => "k".to_owned(),
        11 => "n".to_owned(),
        12 => "p".to_owned(),
        13 => "q".to_owned(),
        14 => "r".to_owned(),
        _ => "".to_owned(),
    };
    proof {
        reveal_strlit("B");
        reveal_strlit("K");
        reveal_strlit("N");
        reveal_strlit("P");
        reveal_strlit("Q");
        reveal_strlit("R");
        reveal_strlit("b");
        reveal_strlit("k");
        reveal_strlit("n");
        reveal_strlit("p");
        reveal_strlit("q");
        reveal_strlit("r");
        reveal_strlit("");
        assert(s@ =~= spec_piece_fen_from_value(piece_value));
    }
    s
}

pub fn pieces_to_fen(pieces: &Vec<i8>) -> (fens: Vec<String>)
    ensures
        fens@.len() == pieces@.len(),
        forall|i: int|
            0 <= i < pieces@.len() ==> fens@[i]@ == spec_piece_fen_from_value(pieces@[i]),
{
    let mut fens: Vec<String> = Vec::new();
    let mut i: usize = 0;
    while i < pieces.len()
        invariant
            i <= pieces@.len(),
            fens@.len() == i,
            forall|j: int|
                0 <= j < i ==> fens@[j]@ == spec_piece_fen_from_value(pieces@[j]),
        decreases pieces@.len() - i,
    {
        fens.push(piece_fen_from_value(pieces[i]));
        i = i + 1;
    }
    fens
}

/// The four values a pawn of the given color may promote to, ordered
/// bishop, knight, queen, rook.
pub open spec fn spec_promotion_options(white: bool) -> Seq<i8> {
    if white {
        seq![17i8, 19i8, 21i8, 22i8]
    } else {
        seq![9i8, 11i8, 13i8, 14i8]
    }
}

pub fn get_promotion_options(white: bool) -> (opts: Vec<i8>)
    ensures
        opts@ == spec_promotion_options(white),
{
    let mut opts: Vec<i8> = Vec::new();
    if white {
        opts.push(17);
        opts.push(19);
        opts.push(21);
        opts.push(22);
    } else {
        opts.push(9);
        opts.push(11);
        opts.push(13);
        opts.push(14);
    }
    proof {
        assert(opts@ =~= spec_promotion_options(white));
    }
    opts
}

} // verus!
