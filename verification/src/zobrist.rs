//! Zobrist hashing: a table of 64 x 12 random 64-bit keys (one per
//! square and piece), plus single keys for the side to move, the four
//! castling rights and the two en-passant markers.  A position's hash is
//! the XOR of the keys of everything present; the engine maintains it
//! incrementally, and `compute_hash` rebuilds it from scratch.

use vstd::prelude::*;

use std::sync::Arc;

use rand::Rng;

use crate::board_state::BoardState;

use crate::pieces::{spec_is_white, spec_piece_type, PieceType};

verus! {

pub const WHITE_BISHOP: usize = 0;

pub const WHITE_KING: usize = 1;

pub const WHITE_KNIGHT: usize = 2;

pub const WHITE_PAWN: usize = 3;

pub const WHITE_QUEEN: usize = 4;

pub const WHITE_ROOK: usize = 5;

pub const BLACK_BISHOP: usize = 6;

pub const BLACK_KING: usize = 7;

pub const BLACK_KNIGHT: usize = 8;

pub const BLACK_PAWN: usize = 9;

pub const BLACK_QUEEN: usize = 10;

pub const BLACK_ROOK: usize = 11;

/// The row of the key table a piece value selects: white pieces map to
/// 0..=5, black pieces to 6..=11 (bishop, king, knight, pawn, queen,
/// rook in each half), and anything else to the out-of-table marker 100.
pub open spec fn spec_piece_index(piece_value: i8) -> int {
    let base: int = if spec_is_white(piece_value) {
        0
    } else {
        6
    };
    match spec_piece_type(piece_value) {
        PieceType::Bishop => base + 0,
        PieceType::King => base + 1,
        PieceType::Knight => base + 2,
        PieceType::Pawn => base + 3,
        PieceType::Queen => base + 4,
        PieceType::Rook => base + 5,
        PieceType::Empty => 100,
    }
}

pub fn get_piece_index(piece_value: i8) -> (idx: usize)
    ensures
        idx == spec_piece_index(piece_value),
{
    let base: usize = if crate::pieces::is_white_piece(piece_value) {
        0
    } else {
        6
    };
    match crate::pieces::get_piece_type(piece_value) {
        PieceType::Bishop => base + 0,
        PieceType::King => base + 1,
        PieceType::Knight => base + 2,
        PieceType::Pawn => base + 3,
        PieceType::Queen => base + 4,
        PieceType::Rook => base + 5,
        PieceType::Empty => 100,
    }
}

/// The immutable random key material of one `Zobrist` instance.  The
/// square/piece table is stored flat, square-major: entry
/// `square * 12 + piece_index`.
#[derive(Debug)]
pub struct ZobristKeys {
    pub table: Vec<u64>,
    pub white_to_move: u64,
    pub white_can_rook_castle: u64,
    pub white_can_queen_castle: u64,
    pub black_can_rook_castle: u64,
    pub black_can_queen_castle: u64,
    pub white_pawn_en_passant: u64,
    pub black_pawn_en_passant: u64,
}

impl ZobristKeys {
    pub open spec fn wf(self) -> bool {
        self.table@.len() == 768
    }
}

#[derive(Debug)]
pub struct Zobrist {
    pub keys: Arc<ZobristKeys>,
    pub hash: u64,
}

/// The key a square contributes to the hash: the table entry for the
/// piece standing there, or 0 when the square is empty (or holds a value
/// outside the piece encoding).
pub open spec fn spec_square_key(keys: ZobristKeys, square: int, piece: i8) -> u64 {
    if spec_piece_index(piece) == 100 {
        0u64
    } else {
        keys.table@[square * 12 + spec_piece_index(piece)]
    }
}

/// XOR of the square keys of the first `n` squares.
pub open spec fn spec_board_xor(keys: ZobristKeys, squares: Seq<i8>, n: int) -> u64
    decreases n,
{
    if n <= 0 {
        0u64
    } else {
        spec_board_xor(keys, squares, n - 1) ^ spec_square_key(keys, n - 1, squares[n - 1])
    }
}

pub open spec fn spec_flag(b: bool, key: u64) -> u64 {
    if b {
        key
    } else {
        0u64
    }
}

/// XOR of the scalar keys that are switched on: side to move, the four
/// castling rights, and the two en-passant markers.
pub open spec fn spec_flags_xor(
    keys: ZobristKeys,
    white_move: bool,
    white_ks: bool,
    white_qs: bool,
    black_ks: bool,
    black_qs: bool,
    white_ep: bool,
    black_ep: bool,
) -> u64 {
    spec_flag(white_move, keys.white_to_move) ^ spec_flag(black_ks, keys.black_can_rook_castle)
        ^ spec_flag(black_qs, keys.black_can_queen_castle) ^ spec_flag(
        black_ep,
        keys.black_pawn_en_passant,
    ) ^ spec_flag(white_ks, keys.white_can_rook_castle) ^ spec_flag(
        white_qs,
        keys.white_can_queen_castle,
    ) ^ spec_flag(white_ep, keys.white_pawn_en_passant)
}

/// The full hash of a position: flags XOR board contents.
pub open spec fn spec_full_hash(
    keys: ZobristKeys,
    squares: Seq<i8>,
    white_move: bool,
    white_ks: bool,
    white_qs: bool,
    black_ks: bool,
    black_qs: bool,
    white_ep: bool,
    black_ep: bool,
) -> u64 {
    spec_flags_xor(keys, white_move, white_ks, white_qs, black_ks, black_qs, white_ep, black_ep)
        ^ spec_board_xor(keys, squares, 64)
}

pub proof fn lemma_xor_assoc(a: u64, b: u64, c: u64)
    ensures
        (a ^ b) ^ c == a ^ (b ^ c),
{
    assert((a ^ b) ^ c == a ^ (b ^ c)) by (bit_vector);
}

pub proof fn lemma_xor_zero(a: u64)
    ensures
        a ^ 0u64 == a,
        0u64 ^ a == a,
{
    assert(a ^ 0u64 == a && 0u64 ^ a == a) by (bit_vector);
}

pub proof fn lemma_xor_self(a: u64)
    ensures
        a ^ a == 0u64,
{
    assert(a ^ a == 0u64) by (bit_vector);
}

pub proof fn lemma_xor_shuffle(x: u64, a: u64, b: u64)
    ensures
        (x ^ a) ^ b == (x ^ b) ^ a,
{
    assert((x ^ a) ^ b == (x ^ b) ^ a) by (bit_vector);
}

pub proof fn lemma_xor_cancel(x: u64, a: u64)
    ensures
        (x ^ a) ^ a == x,
{
    assert((x ^ a) ^ a == x) by (bit_vector);
}

/// Changing one link of the seven-link flag chain by XOR `d` changes the
/// chain value by XOR `d`, whichever link it is.
pub proof fn lemma_flags_reshuffle(
    f1: u64,
    f2: u64,
    f3: u64,
    f4: u64,
    f5: u64,
    f6: u64,
    f7: u64,
    d: u64,
)
    ensures
        ((f1 ^ d) ^ f2 ^ f3 ^ f4 ^ f5 ^ f6 ^ f7) == (f1 ^ f2 ^ f3 ^ f4 ^ f5 ^ f6 ^ f7) ^ d,
        (f1 ^ (f2 ^ d) ^ f3 ^ f4 ^ f5 ^ f6 ^ f7) == (f1 ^ f2 ^ f3 ^ f4 ^ f5 ^ f6 ^ f7) ^ d,
        (f1 ^ f2 ^ (f3 ^ d) ^ f4 ^ f5 ^ f6 ^ f7) == (f1 ^ f2 ^ f3 ^ f4 ^ f5 ^ f6 ^ f7) ^ d,
        (f1 ^ f2 ^ f3 ^ (f4 ^ d) ^ f5 ^ f6 ^ f7) == (f1 ^ f2 ^ f3 ^ f4 ^ f5 ^ f6 ^ f7) ^ d,
        (f1 ^ f2 ^ f3 ^ f4 ^ (f5 ^ d) ^ f6 ^ f7) == (f1 ^ f2 ^ f3 ^ f4 ^ f5 ^ f6 ^ f7) ^ d,
        (f1 ^ f2 ^ f3 ^ f4 ^ f5 ^ (f6 ^ d) ^ f7) == (f1 ^ f2 ^ f3 ^ f4 ^ f5 ^ f6 ^ f7) ^ d,
        (f1 ^ f2 ^ f3 ^ f4 ^ f5 ^ f6 ^ (f7 ^ d)) == (f1 ^ f2 ^ f3 ^ f4 ^ f5 ^ f6 ^ f7) ^ d,
{
    assert(((f1 ^ d) ^ f2 ^ f3 ^ f4 ^ f5 ^ f6 ^ f7) == (f1 ^ f2 ^ f3 ^ f4 ^ f5 ^ f6 ^ f7) ^ d
        && (f1 ^ (f2 ^ d) ^ f3 ^ f4 ^ f5 ^ f6 ^ f7) == (f1 ^ f2 ^ f3 ^ f4 ^ f5 ^ f6 ^ f7) ^ d
        && (f1 ^ f2 ^ (f3 ^ d) ^ f4 ^ f5 ^ f6 ^ f7) == (f1 ^ f2 ^ f3 ^ f4 ^ f5 ^ f6 ^ f7) ^ d
        && (f1 ^ f2 ^ f3 ^ (f4 ^ d) ^ f5 ^ f6 ^ f7) == (f1 ^ f2 ^ f3 ^ f4 ^ f5 ^ f6 ^ f7) ^ d
        && (f1 ^ f2 ^ f3 ^ f4 ^ (f5 ^ d) ^ f6 ^ f7) == (f1 ^ f2 ^ f3 ^ f4 ^ f5 ^ f6 ^ f7) ^ d
        && (f1 ^ f2 ^ f3 ^ f4 ^ f5 ^ (f6 ^ d) ^ f7) == (f1 ^ f2 ^ f3 ^ f4 ^ f5 ^ f6 ^ f7) ^ d
        && (f1 ^ f2 ^ f3 ^ f4 ^ f5 ^ f6 ^ (f7 ^ d)) == (f1 ^ f2 ^ f3 ^ f4 ^ f5 ^ f6 ^ f7) ^ d)
        by (bit_vector);
}

/// Rewriting one square rewrites the board XOR by the old and the new
/// square key; squares at or above the prefix bound leave it unchanged.
pub proof fn lemma_board_xor_update(keys: ZobristKeys, s1: Seq<i8>, s2: Seq<i8>, j: int, n: int)
    requires
        0 <= j < s1.len(),
        s1.len() == s2.len(),
        forall|i: int| 0 <= i < s1.len() && i != j ==> s1[i] == s2[i],
        n <= s1.len(),
    ensures
        n <= j ==> spec_board_xor(keys, s2, n) == spec_board_xor(keys, s1, n),
        n > j ==> spec_board_xor(keys, s2, n) == (spec_board_xor(keys, s1, n) ^ spec_square_key(
            keys,
            j,
            s1[j],
        )) ^ spec_square_key(keys, j, s2[j]),
    decreases n,
{
    let a = spec_square_key(keys, j, s1[j]);
    let b = spec_square_key(keys, j, s2[j]);
    if n <= 0 {
    } else {
        lemma_board_xor_update(keys, s1, s2, j, n - 1);
        let k1 = spec_square_key(keys, n - 1, s1[n - 1]);
        let k2 = spec_square_key(keys, n - 1, s2[n - 1]);
        if n - 1 < j {
            // prefix untouched
        } else if n - 1 == j {
            // this is the rewritten square: k1 == a, k2 == b
            lemma_xor_shuffle(spec_board_xor(keys, s1, n - 1), a, b);
            assert(spec_board_xor(keys, s2, n) == spec_board_xor(keys, s1, n - 1) ^ b);
            assert((spec_board_xor(keys, s1, n) ^ a) ^ b == ((spec_board_xor(keys, s1, n - 1) ^ a)
                ^ a) ^ b) by {
                lemma_xor_shuffle(spec_board_xor(keys, s1, n - 1) ^ a, a, b);
                lemma_xor_shuffle(spec_board_xor(keys, s1, n), a, b);
            }
            lemma_xor_cancel(spec_board_xor(keys, s1, n - 1), a);
        } else {
            // the rewritten square lies inside the shorter prefix
            assert(k1 == k2);
            assert(spec_board_xor(keys, s2, n) == ((spec_board_xor(keys, s1, n - 1) ^ a) ^ b)
                ^ k1);
            lemma_xor_shuffle(spec_board_xor(keys, s1, n - 1) ^ a, b, k1);
            lemma_xor_shuffle(spec_board_xor(keys, s1, n - 1), a, k1);
        }
    }
}

/// Relies on `rand::Rng::gen` on the thread-local generator; nothing is
/// promised of the value drawn.
#[verifier::external_body]
fn random_bitstring() -> u64 {
    rand::thread_rng().gen::<u64>()
}

fn flag_val(b: bool, key: u64) -> (r: u64)
    ensures
        r == spec_flag(b, key),
{
    if b {
        key
    } else {
        0
    }
}

impl Zobrist {
    pub fn new() -> (z: Zobrist)
        ensures
            (*z.keys).wf(),
            z.hash == 0,
    {
        let mut table: Vec<u64> = Vec::new();
        let mut i: usize = 0;
        while i < 768
            invariant
                table@.len() == i,
                i <= 768,
            decreases 768 - i,
        {
            table.push(random_bitstring());
            i = i + 1;
        }
        let keys = ZobristKeys {
            table,
            white_to_move: random_bitstring(),
            white_can_rook_castle: random_bitstring(),
            white_can_queen_castle: random_bitstring(),
            black_can_rook_castle: random_bitstring(),
            black_can_queen_castle: random_bitstring(),
            white_pawn_en_passant: random_bitstring(),
            black_pawn_en_passant: random_bitstring(),
        };
        Zobrist { keys: Arc::new(keys), hash: 0 }
    }

    pub fn clone(&self) -> (z: Zobrist)
        ensures
            z.keys == self.keys,
            z.hash == self.hash,
    {
        Zobrist { keys: self.keys.clone(), hash: self.hash }
    }

    pub fn get_hash(&self) -> (h: u64)
        ensures
            h == self.hash,
    {
        self.hash
    }

    /// XOR out the moved piece at its origin, XOR it in at its
    /// destination, first XOR-ing out a captured piece there, and toggle
    /// the side-to-move key.
    pub fn update_hash_on_move(
        &mut self,
        from_index: usize,
        to_index: usize,
        moved_piece: i8,
        captured_piece: i8,
    )
        requires
            (*old(self).keys).wf(),
            from_index < 64,
            to_index < 64,
            0 <= spec_piece_index(moved_piece) < 12,
        ensures
            final(self).keys == old(self).keys,
            final(self).hash == ((old(self).hash ^ spec_square_key(
                *old(self).keys,
                to_index as int,
                captured_piece,
            )) ^ spec_square_key(*old(self).keys, to_index as int, moved_piece) ^ spec_square_key(
                *old(self).keys,
                from_index as int,
                moved_piece,
            )) ^ (*old(self).keys).white_to_move,
    {
        let captured_index = get_piece_index(captured_piece);
        if captured_index < 12 {
            self.hash = self.hash ^ self.keys.table[to_index * 12 + captured_index];
        } else {
            proof {
                lemma_xor_zero(self.hash);
            }
        }
        let moved_index = get_piece_index(moved_piece);
        self.hash = self.hash ^ self.keys.table[to_index * 12 + moved_index];
        self.hash = self.hash ^ self.keys.table[from_index * 12 + moved_index];
        self.hash = self.hash ^ self.keys.white_to_move;
    }

    pub fn update_hash_on_black_en_passant_change(&mut self)
        ensures
            final(self).keys == old(self).keys,
            final(self).hash == old(self).hash ^ (*old(self).keys).black_pawn_en_passant,
    {
        self.hash = self.hash ^ self.keys.black_pawn_en_passant;
    }

    pub fn update_hash_on_white_en_passant_change(&mut self)
        ensures
            final(self).keys == old(self).keys,
            final(self).hash == old(self).hash ^ (*old(self).keys).white_pawn_en_passant,
    {
        self.hash = self.hash ^ self.keys.white_pawn_en_passant;
    }

    pub fn update_hash_on_black_lose_rook_side_castle(&mut self)
        ensures
            final(self).keys == old(self).keys,
            final(self).hash == old(self).hash ^ (*old(self).keys).black_can_rook_castle,
    {
        self.hash = self.hash ^ self.keys.black_can_rook_castle;
    }

    pub fn update_hash_on_black_lose_queen_side_castle(&mut self)
        ensures
            final(self).keys == old(self).keys,
            final(self).hash == old(self).hash ^ (*old(self).keys).black_can_queen_castle,
    {
        self.hash = self.hash ^ self.keys.black_can_queen_castle;
    }

    pub fn update_hash_on_white_lose_rook_side_castle(&mut self)
        ensures
            final(self).keys == old(self).keys,
            final(self).hash == old(self).hash ^ (*old(self).keys).white_can_rook_castle,
    {
        self.hash = self.hash ^ self.keys.white_can_rook_castle;
    }

    pub fn update_hash_on_white_lose_queen_side_castle(&mut self)
        ensures
            final(self).keys == old(self).keys,
            final(self).hash == old(self).hash ^ (*old(self).keys).white_can_queen_castle,
    {
        self.hash = self.hash ^ self.keys.white_can_queen_castle;
    }

    /// Rebuild the hash of the given position from scratch and store it.
    pub fn compute_hash(&mut self, board_state: &BoardState) -> (h: u64)
        requires
            (*old(self).keys).wf(),
            board_state.squares@.len() == 64,
        ensures
            final(self).keys == old(self).keys,
            final(self).hash == h,
            h == spec_full_hash(
                *old(self).keys,
                board_state.squares@,
                board_state.white_move,
                board_state.white_able_to_king_side_castle,
                board_state.white_able_to_queen_side_castle,
                board_state.black_able_to_king_side_castle,
                board_state.black_able_to_queen_side_castle,
                board_state.white_en_passant != -1,
                board_state.black_en_passant != -1,
            ),
    {
        let h = compute_hash_parts(
            &self.keys,
            &board_state.squares,
            board_state.white_move,
            board_state.white_able_to_king_side_castle,
            board_state.white_able_to_queen_side_castle,
            board_state.black_able_to_king_side_castle,
            board_state.black_able_to_queen_side_castle,
            board_state.white_en_passant != -1,
            board_state.black_en_passant != -1,
        );
        self.hash = h;
        h
    }
}

/// Rebuild a full hash from the raw components of a position.
pub fn compute_hash_parts(
    keys: &ZobristKeys,
    squares: &Vec<i8>,
    white_move: bool,
    white_ks: bool,
    white_qs: bool,
    black_ks: bool,
    black_qs: bool,
    white_ep: bool,
    black_ep: bool,
) -> (h: u64)
    requires
        keys.wf(),
        squares@.len() == 64,
    ensures
        h == spec_full_hash(
            *keys,
            squares@,
            white_move,
            white_ks,
            white_qs,
            black_ks,
            black_qs,
            white_ep,
            black_ep,
        ),
{
    let ghost flags = spec_flags_xor(
        *keys,
        white_move,
        white_ks,
        white_qs,
        black_ks,
        black_qs,
        white_ep,
        black_ep,
    );
    let mut h: u64 = flag_val(white_move, keys.white_to_move);
    h = h ^ flag_val(black_ks, keys.black_can_rook_castle);
    h = h ^ flag_val(black_qs, keys.black_can_queen_castle);
    h = h ^ flag_val(black_ep, keys.black_pawn_en_passant);
    h = h ^ flag_val(white_ks, keys.white_can_rook_castle);
    h = h ^ flag_val(white_qs, keys.white_can_queen_castle);
    h = h ^ flag_val(white_ep, keys.white_pawn_en_passant);
    proof {
        assert(h == flags);
        lemma_xor_zero(flags);
    }
    let mut i: usize = 0;
    while i < 64
        invariant
            i <= 64,
            keys.wf(),
            squares@.len() == 64,
            h == flags ^ spec_board_xor(*keys, squares@, i as int),
        decreases 64 - i,
    {
        let piece = squares[i];
        let idx = get_piece_index(piece);
        let ghost key = spec_square_key(*keys, i as int, piece);
        if idx < 12 {
            h = h ^ keys.table[i * 12 + idx];
        } else {
            proof {
                lemma_xor_zero(h);
            }
        }
        proof {
            lemma_xor_assoc(flags, spec_board_xor(*keys, squares@, i as int), key);
        }
        i = i + 1;
    }
    h
}

} // verus!
