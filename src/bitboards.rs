use vstd::prelude::*;

use crate::board::{BoardView, MAX_DIMENSION};
use crate::codec::{
    base64_of, base64_to_bytes, base64_decoded, bytes_to_base64, code, decode_piece, decoded, encode_piece,
    board_codes, normalized, pack_codes, square_code, unpack_codes, EMPTY_CODE, NUM_PIECE_TYPES,
};
use crate::piece::Piece;

verus! {

pub open spec fn word_bit(w: u64, k: int) -> bool {
    (w >> (k as u64)) & 1 == 1
}

proof fn lemma_or_bit(w: u64, b: u64, k: u64)
    requires
        b < 64,
        k < 64,
    ensures
        ((w | (1u64 << b)) >> k) & 1 == (if k == b { 1 } else { (w >> k) & 1 }),
{
    assert(((w | (1u64 << b)) >> k) & 1 == (if k == b { 1 } else { (w >> k) & 1 })) by (bit_vector)
        requires
            b < 64,
            k < 64,
    ;
}

proof fn lemma_and_not_bit(w: u64, b: u64, k: u64)
    requires
        b < 64,
        k < 64,
    ensures
        ((w & !(1u64 << b)) >> k) & 1 == (if k == b { 0 } else { (w >> k) & 1 }),
{
    assert(((w & !(1u64 << b)) >> k) & 1 == (if k == b { 0 } else { (w >> k) & 1 })) by (bit_vector)
        requires
            b < 64,
            k < 64,
    ;
}

proof fn lemma_bit_is_bool(w: u64, k: u64)
    ensures
        (w >> k) & 1 == 0 || (w >> k) & 1 == 1,
        (0u64 >> k) & 1 == 0,
{
    assert((w >> k) & 1 == 0 || (w >> k) & 1 == 1) by (bit_vector);
    assert((0u64 >> k) & 1 == 0) by (bit_vector);
}

pub open spec fn chunks(n: int) -> int {
    (n + 63) / 64
}

/// One bit set per square for each of the twelve piece codes. Squares are
/// numbered in traversal order: from the top rank down, files left to right.
pub struct Bitboards {
    pub piece_bitboards: Vec<Vec<u64>>,
    pub rank_count: usize,
    pub file_count: usize,
}

impl Bitboards {
    pub open spec fn squares(&self) -> int {
        self.rank_count * self.file_count
    }

    pub open spec fn wf(&self) -> bool {
        &&& 1 <= self.rank_count <= MAX_DIMENSION
        &&& 1 <= self.file_count <= MAX_DIMENSION
        &&& self.piece_bitboards@.len() == NUM_PIECE_TYPES
        &&& forall|i: int| 0 <= i < NUM_PIECE_TYPES ==> (#[trigger] self.piece_bitboards@[i])@.len() == chunks(self.squares())
    }

    pub open spec fn bit(&self, i: int, idx: int) -> bool {
        word_bit(self.piece_bitboards@[i]@[idx / 64], idx % 64)
    }

    /// The first code from `i` on whose bitboard has square `idx` set; 15 if none.
    pub open spec fn first_set(&self, idx: int, i: int) -> int
        decreases 12 - i,
    {
        if i >= 12 {
            15
        } else if self.bit(i, idx) {
            i
        } else {
            self.first_set(idx, i + 1)
        }
    }

    /// The code that square `idx` reads as.
    pub open spec fn code_at(&self, idx: int) -> int {
        self.first_set(idx, 0)
    }

    pub open spec fn codes(&self) -> Seq<int> {
        Seq::new(self.squares() as nat, |k: int| self.code_at(k))
    }

    /// The traversal index of the 0-based `rank` (counted from the bottom) and `file`.
    pub open spec fn index_of(&self, rank: int, file: int) -> int {
        (self.rank_count - 1 - rank) * self.file_count + file
    }

    pub proof fn lemma_first_set_same(&self, other: &Bitboards, idx: int, i: int)
        requires
            forall|j: int| i <= j < 12 ==> self.bit(j, idx) == other.bit(j, idx),
        ensures
            self.first_set(idx, i) == other.first_set(idx, i),
        decreases 12 - i,
    {
        if i < 12 {
            self.lemma_first_set_same(other, idx, i + 1);
        }
    }

    pub proof fn lemma_first_set_only(&self, idx: int, i: int, c: int)
        requires
            0 <= i <= c < 12,
            self.bit(c, idx),
            forall|j: int| i <= j < 12 && j != c ==> !self.bit(j, idx),
        ensures
            self.first_set(idx, i) == c,
        decreases 12 - i,
    {
        if i < c {
            self.lemma_first_set_only(idx, i + 1, c);
        }
    }

    pub proof fn lemma_first_set_none(&self, idx: int, i: int)
        requires
            0 <= i <= 12,
            forall|j: int| i <= j < 12 ==> !self.bit(j, idx),
        ensures
            self.first_set(idx, i) == 15,
        decreases 12 - i,
    {
        if i < 12 {
            self.lemma_first_set_none(idx, i + 1);
        }
    }

    pub proof fn lemma_first_set_range(&self, idx: int, i: int)
        requires
            0 <= i,
        ensures
            (i <= self.first_set(idx, i) < 12) || self.first_set(idx, i) == 15,
        decreases 12 - i,
    {
        if i < 12 {
            self.lemma_first_set_range(idx, i + 1);
        }
    }

    /// Empty bitboards for a board of the given size.
    pub fn new(rank_count: usize, file_count: usize) -> (r: Bitboards)
        requires
            1 <= rank_count <= MAX_DIMENSION,
            1 <= file_count <= MAX_DIMENSION,
        ensures
            r.wf(),
            r.rank_count == rank_count,
            r.file_count == file_count,
            forall|i: int, idx: int| 0 <= i < 12 && 0 <= idx < r.squares() ==> !#[trigger] r.bit(i, idx),
    {
        proof {
            assert(rank_count * file_count <= 144) by (nonlinear_arith)
                requires
                    rank_count <= 12,
                    file_count <= 12,
            ;
        }
        let square_count = rank_count * file_count;
        let u64_count = (square_count + 63) / 64;
        let mut piece_bitboards: Vec<Vec<u64>> = Vec::new();
        let mut i: usize = 0;
        while i < NUM_PIECE_TYPES
            invariant
                i <= NUM_PIECE_TYPES,
                piece_bitboards@.len() == i,
                u64_count == chunks(square_count as int),
                forall|j: int| 0 <= j < i ==> (#[trigger] piece_bitboards@[j])@.len() == u64_count,
                forall|j: int, c: int| 0 <= j < i && 0 <= c < u64_count ==> #[trigger] piece_bitboards@[j]@[c] == 0,
            decreases NUM_PIECE_TYPES - i,
        {
            piece_bitboards.push(vec![0u64; u64_count]);
            i += 1;
        }
        let r = Bitboards { piece_bitboards, rank_count, file_count };
        proof {
            assert forall|i: int, idx: int| 0 <= i < 12 && 0 <= idx < r.squares() implies !#[trigger] r.bit(i, idx) by {
                assert(idx / 64 < u64_count);
                assert(r.piece_bitboards@[i]@[idx / 64] == 0);
                lemma_bit_is_bool(0, (idx % 64) as u64);
            }
        }
        r
    }

    /// Convert 0-based rank (from the bottom) and file to the traversal index.
    fn square_index(&self, rank: usize, file: usize) -> (r: usize)
        requires
            self.wf(),
            rank < self.rank_count,
            file < self.file_count,
        ensures
            r == self.index_of(rank as int, file as int),
            r < self.squares(),
    {
        proof {
            assert((self.rank_count - 1 - rank) * self.file_count + file < self.rank_count * self.file_count) by (nonlinear_arith)
                requires
                    rank < self.rank_count,
                    file < self.file_count,
            ;
            assert(self.rank_count * self.file_count <= 144) by (nonlinear_arith)
                requires
                    self.rank_count <= 12,
                    self.file_count <= 12,
            ;
        }
        (self.rank_count - 1 - rank) * self.file_count + file
    }

    /// Sets the bit of `piece`'s code on the square.
    pub fn set_piece(&mut self, rank: usize, file: usize, piece: &Piece)
        requires
            old(self).wf(),
            rank < old(self).rank_count,
            file < old(self).file_count,
        ensures
            final(self).wf(),
            final(self).rank_count == old(self).rank_count,
            final(self).file_count == old(self).file_count,
            forall|i: int, idx: int|
                0 <= i < 12 && 0 <= idx < final(self).squares() ==> #[trigger] final(self).bit(i, idx) == (old(self).bit(i, idx) || (
                i == code(*piece) && idx == old(self).index_of(rank as int, file as int))),
    {
        let index = self.square_index(rank, file);
        let chunk = index / 64;
        let bit = index % 64;
        let c = encode_piece(piece) as usize;
        let ghost old_self = *self;
        let word = self.piece_bitboards[c][chunk];
        self.piece_bitboards[c][chunk] = word | (1u64 << (bit as u64));
        proof {
            assert forall|i: int, idx: int|
                0 <= i < 12 && 0 <= idx < self.squares() implies #[trigger] self.bit(i, idx) == (old_self.bit(i, idx) || (i
                == c && idx == index)) by {
                assert(old_self.piece_bitboards@[i]@.len() == chunks(old_self.squares()));
                assert(idx / 64 < chunks(old_self.squares()));
                if i == c && idx / 64 == chunk {
                    lemma_or_bit(word, bit as u64, (idx % 64) as u64);
                    lemma_bit_is_bool(word, (idx % 64) as u64);
                    if idx != index {
                        assert(idx % 64 != bit);
                    }
                } else {
                    assert(self.piece_bitboards@[i]@[idx / 64] == old_self.piece_bitboards@[i]@[idx / 64]);
                }
            }
        }
    }

    /// Clears the square on every bitboard.
    pub fn clear_square(&mut self, rank: usize, file: usize)
        requires
            old(self).wf(),
            rank < old(self).rank_count,
            file < old(self).file_count,
        ensures
            final(self).wf(),
            final(self).rank_count == old(self).rank_count,
            final(self).file_count == old(self).file_count,
            forall|i: int, idx: int|
                0 <= i < 12 && 0 <= idx < final(self).squares() ==> #[trigger] final(self).bit(i, idx) == (old(self).bit(i, idx) && idx
                    != old(self).index_of(rank as int, file as int)),
    {
        let index = self.square_index(rank, file);
        let chunk = index / 64;
        let bit = index % 64;
        let ghost old_self = *self;
        let mut c: usize = 0;
        while c < NUM_PIECE_TYPES
            invariant
                self.wf(),
                old_self.wf(),
                self.rank_count == old_self.rank_count,
                self.file_count == old_self.file_count,
                c <= NUM_PIECE_TYPES,
                index < self.squares(),
                chunk == index / 64,
                bit == index % 64,
                forall|i: int, idx: int|
                    0 <= i < 12 && 0 <= idx < self.squares() ==> #[trigger] self.bit(i, idx) == (old_self.bit(i, idx) && (i >= c
                        || idx != index)),
            decreases NUM_PIECE_TYPES - c,
        {
            let ghost before = *self;
            assert(self.piece_bitboards@[c as int]@.len() == chunks(self.squares()));
            let word = self.piece_bitboards[c][chunk];
            self.piece_bitboards[c][chunk] = word & !(1u64 << (bit as u64));
            proof {
                assert forall|i: int, idx: int|
                    0 <= i < 12 && 0 <= idx < self.squares() implies #[trigger] self.bit(i, idx) == (old_self.bit(i, idx) && (i
                    >= c + 1 || idx != index)) by {
                    assert(before.piece_bitboards@[i]@.len() == chunks(before.squares()));
                    assert(before.bit(i, idx) == (old_self.bit(i, idx) && (i >= c || idx != index)));
                    if i == c && idx / 64 == chunk {
                        lemma_and_not_bit(word, bit as u64, (idx % 64) as u64);
                        lemma_bit_is_bool(word, (idx % 64) as u64);
                        if idx != index {
                            assert(idx % 64 != bit);
                        }
                    } else {
                        assert(self.piece_bitboards@[i]@[idx / 64] == before.piece_bitboards@[i]@[idx / 64]);
                    }
                }
            }
            c += 1;
        }
    }

    /// The piece whose code is the first set on the square, if any.
    pub fn get_piece(&self, rank: usize, file: usize) -> (r: Option<Piece>)
        requires
            self.wf(),
            rank < self.rank_count,
            file < self.file_count,
        ensures
            r == decoded(self.code_at(self.index_of(rank as int, file as int))),
    {
        let index = self.square_index(rank, file);
        self.piece_at_index(index)
    }

    fn piece_at_index(&self, index: usize) -> (r: Option<Piece>)
        requires
            self.wf(),
            index < self.squares(),
        ensures
            r == decoded(self.code_at(index as int)),
    {
        let chunk = index / 64;
        let bit = index % 64;
        let mut i: usize = 0;
        while i < NUM_PIECE_TYPES
            invariant
                self.wf(),
                index < self.squares(),
                chunk == index / 64,
                bit == index % 64,
                i <= 12,
                self.first_set(index as int, 0) == self.first_set(index as int, i as int),
            decreases NUM_PIECE_TYPES - i,
        {
            assert(self.piece_bitboards@[i as int]@.len() == chunks(self.squares()));
            if (self.piece_bitboards[i][chunk] >> (bit as u64)) & 1 == 1 {
                return decode_piece(i);
            }
            i += 1;
        }
        None
    }

    /// The code of the square with traversal index `index`, 15 when empty.
    fn code_at_index(&self, index: usize) -> (r: u8)
        requires
            self.wf(),
            index < self.squares(),
        ensures
            r == self.code_at(index as int),
    {
        proof {
            self.lemma_first_set_range(index as int, 0);
        }
        match self.piece_at_index(index) {
            Some(p) => encode_piece(&p),
            None => EMPTY_CODE,
        }
    }
}


/// The board rows `rows` seen as a board without moves.
pub open spec fn rows_view(rows: Seq<Vec<Option<Piece>>>) -> BoardView {
    BoardView { rows: rows.map_values(|row: Vec<Option<Piece>>| row@), move_count: 0 }
}

pub proof fn lemma_index_div_mod(r: int, f: int, files: int)
    requires
        0 <= r,
        0 <= f < files,
    ensures
        (r * files + f) / files == r,
        (r * files + f) % files == f,
{
    vstd::arithmetic::div_mod::lemma_fundamental_div_mod_converse(r * files + f, files, r, f);
}

pub proof fn lemma_code_decoded(c: int)
    requires
        0 <= c < 16,
    ensures
        square_code(decoded(c)) == normalized(c),
{
}

impl Bitboards {
    /// Bitboards holding the pieces of `board` (rows from the top rank down).
    pub fn from_board(board: Vec<Vec<Option<Piece>>>) -> (r: Bitboards)
        requires
            rows_view(board@).wf(),
        ensures
            r.wf(),
            r.rank_count == board@.len(),
            r.file_count == rows_view(board@).files(),
            r.codes() == board_codes(rows_view(board@)),
    {
        let ghost b = rows_view(board@);
        let rank_count = board.len();
        let file_count = board[0].len();
        let mut bitboards = Bitboards::new(rank_count, file_count);
        let mut k: usize = 0;
        let mut i: usize = 0;
        proof {
            assert(b.rows[0].len() == file_count);
        }
        while i < rank_count
            invariant
                b == rows_view(board@),
                b.wf(),
                rank_count == b.ranks(),
                file_count == b.files(),
                bitboards.wf(),
                bitboards.rank_count == rank_count,
                bitboards.file_count == file_count,
                i <= rank_count,
                k == i * file_count,
                forall|idx: int| 0 <= idx < k ==> #[trigger] bitboards.code_at(idx) == board_codes(b)[idx],
                forall|c: int, idx: int| 0 <= c < 12 && k <= idx < bitboards.squares() ==> !#[trigger] bitboards.bit(c, idx),
            decreases rank_count - i,
        {
            assert(b.rows[i as int].len() == file_count);
            let mut j: usize = 0;
            while j < file_count
                invariant
                    b == rows_view(board@),
                    b.wf(),
                    rank_count == b.ranks(),
                    file_count == b.files(),
                    bitboards.wf(),
                    bitboards.rank_count == rank_count,
                    bitboards.file_count == file_count,
                    i < rank_count,
                    j <= file_count,
                    k == i * file_count + j,
                    board@[i as int]@.len() == file_count,
                    forall|idx: int| 0 <= idx < k ==> #[trigger] bitboards.code_at(idx) == board_codes(b)[idx],
                    forall|c: int, idx: int| 0 <= c < 12 && k <= idx < bitboards.squares() ==> !#[trigger] bitboards.bit(c, idx),
                decreases file_count - j,
            {
                proof {
                    lemma_index_div_mod(i as int, j as int, file_count as int);
                    assert(k < rank_count * file_count) by (nonlinear_arith)
                        requires
                            k == i * file_count + j,
                            i < rank_count,
                            j < file_count,
                    ;
                    assert(rank_count * file_count <= 144) by (nonlinear_arith)
                        requires
                            rank_count <= 12,
                            file_count <= 12,
                    ;
                }
                let ghost before = bitboards;
                match board[i][j] {
                    Some(piece) => {
                        proof {
                            assert(rank_count - 1 - (rank_count - 1 - i) == i);
                            assert(before.index_of((rank_count - 1 - i) as int, j as int) == k as int);
                        }
                        bitboards.set_piece(rank_count - 1 - i, j, &piece);
                        proof {
                            assert(board_codes(b)[k as int] == code(piece));
                            bitboards.lemma_first_set_only(k as int, 0, code(piece));
                        }
                    },
                    None => {
                        proof {
                            bitboards.lemma_first_set_none(k as int, 0);
                            assert(board_codes(b)[k as int] == 15);
                        }
                    },
                }
                proof {
                    assert(bitboards.code_at(k as int) == board_codes(b)[k as int]);
                    assert forall|idx: int| 0 <= idx < k implies #[trigger] bitboards.code_at(idx) == board_codes(b)[idx] by {
                        assert(before.code_at(idx) == board_codes(b)[idx]);
                        bitboards.lemma_first_set_same(&before, idx, 0);
                    }
                }
                k += 1;
                j += 1;
            }
            proof {
                assert((i + 1) * file_count == i * file_count + file_count) by (nonlinear_arith);
            }
            i += 1;
        }
        proof {
            assert(bitboards.codes() =~= board_codes(b));
        }
        bitboards
    }

    /// The rows the bitboards describe, from the top rank down; pieces come unmoved.
    pub fn to_board(&self) -> (r: Vec<Vec<Option<Piece>>>)
        requires
            self.wf(),
        ensures
            r@.len() == self.rank_count,
            forall|i: int| 0 <= i < self.rank_count ==> (#[trigger] r@[i])@.len() == self.file_count,
            forall|i: int, j: int|
                0 <= i < self.rank_count && 0 <= j < self.file_count ==> #[trigger] r@[i]@[j] == decoded(
                    self.code_at(i * self.file_count + j),
                ),
    {
        let mut board: Vec<Vec<Option<Piece>>> = Vec::new();
        let mut i: usize = 0;
        let mut k: usize = 0;
        while i < self.rank_count
            invariant
                self.wf(),
                i <= self.rank_count,
                k == i * self.file_count,
                board@.len() == i,
                forall|a: int| 0 <= a < i ==> (#[trigger] board@[a])@.len() == self.file_count,
                forall|a: int, c: int|
                    0 <= a < i && 0 <= c < self.file_count ==> #[trigger] board@[a]@[c] == decoded(self.code_at(a * self.file_count + c)),
            decreases self.rank_count - i,
        {
            let mut row: Vec<Option<Piece>> = Vec::new();
            let mut j: usize = 0;
            while j < self.file_count
                invariant
                    self.wf(),
                    i < self.rank_count,
                    j <= self.file_count,
                    k == i * self.file_count + j,
                    row@.len() == j,
                    forall|c: int| 0 <= c < j ==> #[trigger] row@[c] == decoded(self.code_at(i * self.file_count + c)),
                decreases self.file_count - j,
            {
                proof {
                    assert(k < self.rank_count * self.file_count) by (nonlinear_arith)
                        requires
                            k == i * self.file_count + j,
                            i < self.rank_count,
                            j < self.file_count,
                    ;
                    assert(self.rank_count * self.file_count <= 144) by (nonlinear_arith)
                        requires
                            self.rank_count <= 12,
                            self.file_count <= 12,
                    ;
                }
                row.push(self.piece_at_index(k));
                k += 1;
                j += 1;
            }
            proof {
                assert((i + 1) * self.file_count == i * self.file_count + self.file_count) by (nonlinear_arith);
            }
            board.push(row);
            i += 1;
        }
        board
    }

    /// Two codes per byte in traversal order, the first in the high nibble; an odd
    /// square count ends with an empty low nibble.
    pub fn to_compact_bytes(&self) -> (r: Vec<u8>)
        requires
            self.wf(),
        ensures
            r@ == pack_codes(self.codes()),
    {
        proof {
            assert(self.rank_count * self.file_count <= 144) by (nonlinear_arith)
                requires
                    self.rank_count <= 12,
                    self.file_count <= 12,
            ;
        }
        let num_squares = self.rank_count * self.file_count;
        let mut out: Vec<u8> = Vec::new();
        let mut i: usize = 0;
        while 2 * i < num_squares
            invariant
                self.wf(),
                num_squares == self.squares(),
                num_squares <= 144,
                2 * i <= num_squares + 1,
                out@.len() == i,
                forall|a: int| 0 <= a < i ==> #[trigger] out@[a] == pack_codes(self.codes())[a],
            decreases num_squares + 1 - 2 * i,
        {
            let hi = self.code_at_index(2 * i);
            let lo = if 2 * i + 1 < num_squares {
                self.code_at_index(2 * i + 1)
            } else {
                EMPTY_CODE
            };
            proof {
                self.lemma_first_set_range(2 * i as int, 0);
                self.lemma_first_set_range(2 * i + 1, 0);
            }
            out.push(hi * 16 + lo);
            i += 1;
        }
        proof {
            assert(out@ =~= pack_codes(self.codes()));
        }
        out
    }

    /// Bitboards from packed bytes; nibbles that are no piece code read as empty.
    pub fn from_compact_bytes(bytes: &[u8], rank_count: usize, file_count: usize) -> (r: Bitboards)
        requires
            1 <= rank_count <= MAX_DIMENSION,
            1 <= file_count <= MAX_DIMENSION,
            2 * bytes@.len() >= rank_count * file_count,
        ensures
            r.wf(),
            r.rank_count == rank_count,
            r.file_count == file_count,
            r.codes() == Seq::new(
                (rank_count * file_count) as nat,
                |k: int| normalized(unpack_codes(bytes@, rank_count * file_count)[k]),
            ),
    {
        let ghost n = rank_count * file_count;
        let mut board: Vec<Vec<Option<Piece>>> = Vec::new();
        let mut i: usize = 0;
        let mut k: usize = 0;
        while i < rank_count
            invariant
                1 <= rank_count <= MAX_DIMENSION,
                1 <= file_count <= MAX_DIMENSION,
                2 * bytes@.len() >= rank_count * file_count,
                n == rank_count * file_count,
                i <= rank_count,
                k == i * file_count,
                board@.len() == i,
                forall|a: int| 0 <= a < i ==> (#[trigger] board@[a])@.len() == file_count,
                forall|a: int, c: int|
                    0 <= a < i && 0 <= c < file_count ==> #[trigger] board@[a]@[c] == decoded(unpack_codes(bytes@, n)[a * file_count + c]),
            decreases rank_count - i,
        {
            let mut row: Vec<Option<Piece>> = Vec::new();
            let mut j: usize = 0;
            while j < file_count
                invariant
                    1 <= rank_count <= MAX_DIMENSION,
                    1 <= file_count <= MAX_DIMENSION,
                    2 * bytes@.len() >= rank_count * file_count,
                    n == rank_count * file_count,
                    i < rank_count,
                    j <= file_count,
                    k == i * file_count + j,
                    row@.len() == j,
                    forall|c: int| 0 <= c < j ==> #[trigger] row@[c] == decoded(unpack_codes(bytes@, n)[i * file_count + c]),
                decreases file_count - j,
            {
                proof {
                    assert(k < rank_count * file_count) by (nonlinear_arith)
                        requires
                            k == i * file_count + j,
                            i < rank_count,
                            j < file_count,
                    ;
                    assert(rank_count * file_count <= 144) by (nonlinear_arith)
                        requires
                            rank_count <= 12,
                            file_count <= 12,
                    ;
                }
                let byte = bytes[k / 2];
                let nibble: u8 = if k % 2 == 0 {
                    byte / 16
                } else {
                    byte % 16
                };
                row.push(decode_piece(nibble as usize));
                k += 1;
                j += 1;
            }
            proof {
                assert((i + 1) * file_count == i * file_count + file_count) by (nonlinear_arith);
            }
            board.push(row);
            i += 1;
        }
        proof {
            let b = rows_view(board@);
            assert(b.rows[0].len() == file_count);
            assert forall|a: int| 0 <= a < b.ranks() implies #[trigger] b.rows[a].len() == b.files() by {}
        }
        let r = Self::from_board(board);
        proof {
            let b = rows_view(board@);
            assert forall|kk: int| 0 <= kk < n implies #[trigger] board_codes(b)[kk] == normalized(unpack_codes(bytes@, n)[kk]) by {
                let a = kk / file_count as int;
                let c = kk % file_count as int;
                assert(kk == a * file_count + c) by {
                    vstd::arithmetic::div_mod::lemma_fundamental_div_mod(kk, file_count as int);
                }
                assert(0 <= a < rank_count) by {
                    vstd::arithmetic::div_mod::lemma_div_pos_is_pos(kk, file_count as int);
                    vstd::arithmetic::div_mod::lemma_div_is_ordered(kk, n - 1, file_count as int);
                    lemma_index_div_mod(rank_count - 1, file_count - 1, file_count as int);
                    assert(n - 1 == (rank_count - 1) * file_count + (file_count - 1)) by (nonlinear_arith)
                        requires
                            n == rank_count * file_count,
                    ;
                }
                let v = unpack_codes(bytes@, n)[kk];
                assert(0 <= v < 16);
                lemma_code_decoded(v);
            }
            assert(r.codes() =~= Seq::new(n as nat, |k: int| normalized(unpack_codes(bytes@, n)[k])));
        }
        r
    }

    /// The packed bytes in base 64.
    pub fn to_base64(&self) -> (r: String)
        requires
            self.wf(),
        ensures
            r@ == base64_of(pack_codes(self.codes())),
            base64_decoded(r@) == Some(pack_codes(self.codes())),
    {
        let bytes = self.to_compact_bytes();
        bytes_to_base64(bytes.as_slice())
    }

    /// Bitboards from base-64 packed bytes; `None` when the text is not base 64
    /// or holds too few bytes for the board.
    pub fn from_base64(s: &str, rank_count: usize, file_count: usize) -> (r: Option<Bitboards>)
        requires
            1 <= rank_count <= MAX_DIMENSION,
            1 <= file_count <= MAX_DIMENSION,
        ensures
            r is Some <==> (base64_decoded(s@) is Some && 2 * base64_decoded(s@)->Some_0.len() >= rank_count * file_count),
            r is Some ==> {
                let b = r->Some_0;
                &&& b.wf()
                &&& b.rank_count == rank_count
                &&& b.file_count == file_count
                &&& b.codes() == Seq::new(
                    (rank_count * file_count) as nat,
                    |k: int| normalized(unpack_codes(base64_decoded(s@)->Some_0, rank_count * file_count)[k]),
                )
            },
    {
        proof {
            assert(rank_count * file_count <= 144) by (nonlinear_arith)
                requires
                    rank_count <= 12,
                    file_count <= 12,
            ;
        }
        let bytes = match base64_to_bytes(s) {
            Some(b) => b,
            None => {
                return None;
            },
        };
        if bytes.len() < 72 && 2 * bytes.len() < rank_count * file_count {
            return None;
        }
        Some(Self::from_compact_bytes(bytes.as_slice(), rank_count, file_count))
    }
}

impl Bitboards {
    /// Every square reads as a piece code or as empty.
    pub proof fn lemma_codes_in_range(&self)
        ensures
            forall|k: int| 0 <= k < self.codes().len() ==> (0 <= #[trigger] self.codes()[k] < 12 || self.codes()[k] == 15),
    {
        assert forall|k: int| 0 <= k < self.codes().len() implies (0 <= #[trigger] self.codes()[k] < 12 || self.codes()[k] == 15) by {
            self.lemma_first_set_range(k, 0);
        }
    }

    /// Unpacking the packed bytes of bitboards `a` gives back the codes of `a`:
    /// the bitboards that `from_compact_bytes` builds from `a.to_compact_bytes()`
    /// (or `from_base64` from `a.to_base64()`) read, and pack, exactly as `a` does.
    pub proof fn lemma_pack_round_trip(&self)
        requires
            self.wf(),
        ensures
            Seq::new(self.squares() as nat, |k: int| normalized(unpack_codes(pack_codes(self.codes()), self.squares())[k]))
                == self.codes(),
    {
        self.lemma_codes_in_range();
        crate::codec::lemma_codes_round_trip(self.codes());
    }
}

} // verus!
