use vstd::prelude::*;

use crate::bitboards::{rows_view, Bitboards};
use crate::board::{Board, BoardDimensions, BoardView, MAX_DIMENSION};
use crate::codec::{
    base64_decoded, base64_of, board_codes, board_stamps, code, compact, decoded, pack_codes, square_code, unpack_codes,
    unpacked,
};
use crate::piece::Piece;

verus! {

/// The wire form of a board: packed squares in base 64, the move counter, the
/// dimensions, and the move stamp of every square in traversal order.
#[derive(Debug)]
pub struct CompactBoard {
    pub squares: String,
    pub move_count: usize,
    pub dimensions: BoardDimensions,
    pub last_game_moves: Vec<Option<usize>>,
}

proof fn lemma_nibbles(hi: int, lo: int)
    requires
        0 <= hi < 16,
        0 <= lo < 16,
    ensures
        ((hi * 16 + lo) as u8) as int / 16 == hi,
        ((hi * 16 + lo) as u8) as int % 16 == lo,
{
}

/// Unpacking a packed board, with its stamps, gives the board back; packing
/// that board again gives the same bytes.
pub proof fn lemma_compact_round_trip(b: BoardView)
    requires
        b.wf(),
    ensures
        unpacked(compact(b), b.ranks(), b.files(), board_stamps(b), b.move_count) == b,
        compact(unpacked(compact(b), b.ranks(), b.files(), board_stamps(b), b.move_count)) == compact(b),
{
    let ranks = b.ranks();
    let files = b.files();
    let n = ranks * files;
    let codes = board_codes(b);
    let u = unpacked(compact(b), ranks, files, board_stamps(b), b.move_count);
    assert(n <= 144) by (nonlinear_arith)
        requires
            1 <= ranks <= 12,
            1 <= files <= 12,
            n == ranks * files,
    ;
    assert forall|r: int, f: int| 0 <= r < ranks && 0 <= f < files implies #[trigger] u.rows[r][f] == b.rows[r][f] by {
        let k = r * files + f;
        crate::bitboards::lemma_index_div_mod(r, f, files);
        assert(0 <= k < n) by (nonlinear_arith)
            requires
                k == r * files + f,
                0 <= r < ranks,
                0 <= f < files,
                n == ranks * files,
        ;
        assert(b.rows[r].len() == files);
        let pc = pack_codes(codes);
        let i = k / 2;
        let hi = if 2 * i < n { codes[2 * i] } else { 15 };
        let lo = if 2 * i + 1 < n { codes[2 * i + 1] } else { 15 };
        assert(0 <= hi < 16 && 0 <= lo < 16) by {
            if 2 * i < n {
                let kk = 2 * i;
                assert(codes[kk] == square_code(b.rows[kk / files][kk % files]));
            }
            if 2 * i + 1 < n {
                let kk = 2 * i + 1;
                assert(codes[kk] == square_code(b.rows[kk / files][kk % files]));
            }
        }
        lemma_nibbles(hi, lo);
        assert(unpack_codes(compact(b), n)[k] == codes[k]);
    }
    assert forall|r: int| 0 <= r < ranks implies #[trigger] u.rows[r] == b.rows[r] by {
        assert(b.rows[r].len() == files);
        assert(u.rows[r] =~= b.rows[r]);
    }
    assert(u.rows =~= b.rows);
}

impl Board {
    /// The wire form: squares packed two per byte in traversal order (from the
    /// top rank down) in base 64, with the per-square move stamps.
    pub fn to_compact(&self) -> (r: CompactBoard)
        requires
            self.wf(),
        ensures
            r.squares@ == base64_of(compact(self@)),
            base64_decoded(r.squares@) == Some(compact(self@)),
            r.move_count == self.move_count,
            r.dimensions.ranks == self@.ranks(),
            r.dimensions.files == self@.files(),
            r.last_game_moves@ == board_stamps(self@),
    {
        let copy = self.clone();
        let ranks = self.num_ranks();
        let files = self.num_files();
        let bitboards = Bitboards::from_board(copy.squares);
        let squares = bitboards.to_base64();
        let mut stamps: Vec<Option<usize>> = Vec::new();
        let mut i: usize = 0;
        let mut k: usize = 0;
        proof {
            assert(ranks * files <= 144) by (nonlinear_arith)
                requires
                    ranks <= 12,
                    files <= 12,
            ;
        }
        while i < ranks
            invariant
                self.wf(),
                ranks == self@.ranks(),
                files == self@.files(),
                ranks * files <= 144,
                i <= ranks,
                k == i * files,
                stamps@ == board_stamps(self@).subrange(0, k as int),
            decreases ranks - i,
        {
            assert(self@.rows[i as int].len() == files);
            let mut j: usize = 0;
            while j < files
                invariant
                    self.wf(),
                    ranks == self@.ranks(),
                    files == self@.files(),
                    ranks * files <= 144,
                    i < ranks,
                    j <= files,
                    self@.rows[i as int].len() == files,
                    k == i * files + j,
                    stamps@ == board_stamps(self@).subrange(0, k as int),
                decreases files - j,
            {
                proof {
                    crate::bitboards::lemma_index_div_mod(i as int, j as int, files as int);
                    assert(k < ranks * files) by (nonlinear_arith)
                        requires
                            k == i * files + j,
                            i < ranks,
                            j < files,
                    ;
                }
                let stamp = match self.squares[i][j] {
                    Some(p) => p.last_game_move,
                    None => None,
                };
                stamps.push(stamp);
                k += 1;
                j += 1;
                proof {
                    assert(stamps@ =~= board_stamps(self@).subrange(0, k as int));
                }
            }
            proof {
                assert((i + 1) * files == i * files + files) by (nonlinear_arith);
            }
            i += 1;
        }
        proof {
            assert(stamps@ =~= board_stamps(self@));
            assert(rows_view(self.squares@) == BoardView { move_count: 0, ..self@ });
            assert(board_codes(rows_view(self.squares@)) =~= board_codes(self@));
        }
        CompactBoard {
            squares,
            move_count: self.move_count,
            dimensions: BoardDimensions { ranks, files },
            last_game_moves: stamps,
        }
    }

    /// The board a wire form describes; `None` when the dimensions are outside
    /// one to twelve, or the squares are not base 64 or too short for the board.
    pub fn from_compact(c: &CompactBoard) -> (r: Option<Board>)
        ensures
            r is Some <==> {
                &&& 1 <= c.dimensions.ranks <= MAX_DIMENSION
                &&& 1 <= c.dimensions.files <= MAX_DIMENSION
                &&& base64_decoded(c.squares@) is Some
                &&& 2 * base64_decoded(c.squares@)->Some_0.len() >= c.dimensions.ranks * c.dimensions.files
            },
            r is Some ==> r->Some_0.wf() && r->Some_0@ == unpacked(
                base64_decoded(c.squares@)->Some_0,
                c.dimensions.ranks as int,
                c.dimensions.files as int,
                c.last_game_moves@,
                c.move_count as int,
            ),
    {
        let ranks = c.dimensions.ranks;
        let files = c.dimensions.files;
        if ranks < 1 || ranks > MAX_DIMENSION || files < 1 || files > MAX_DIMENSION {
            return None;
        }
        let bitboards = match Bitboards::from_base64(c.squares.as_str(), ranks, files) {
            Some(b) => b,
            None => {
                return None;
            },
        };
        let ghost bytes = base64_decoded(c.squares@)->Some_0;
        let ghost n = ranks * files;
        let mut squares = bitboards.to_board();
        let mut i: usize = 0;
        let mut k: usize = 0;
        proof {
            assert(ranks * files <= 144) by (nonlinear_arith)
                requires
                    ranks <= 12,
                    files <= 12,
            ;
        }
        while i < ranks
            invariant
                1 <= ranks <= MAX_DIMENSION,
                1 <= files <= MAX_DIMENSION,
                ranks * files <= 144,
                n == ranks * files,
                bitboards.wf(),
                bitboards.rank_count == ranks,
                bitboards.file_count == files,
                bitboards.codes() == Seq::new(n as nat, |kk: int| crate::codec::normalized(unpack_codes(bytes, n)[kk])),
                i <= ranks,
                k == i * files,
                squares@.len() == ranks,
                forall|a: int| 0 <= a < ranks ==> (#[trigger] squares@[a])@.len() == files,
                forall|a: int, f: int|
                    0 <= a < ranks && 0 <= f < files ==> #[trigger] squares@[a]@[f] == (if a < i {
                        unpacked(bytes, ranks as int, files as int, c.last_game_moves@, c.move_count as int).rows[a][f]
                    } else {
                        decoded(bitboards.code_at(a * files + f))
                    }),
            decreases ranks - i,
        {
            let mut j: usize = 0;
            while j < files
                invariant
                    1 <= ranks <= MAX_DIMENSION,
                    1 <= files <= MAX_DIMENSION,
                    ranks * files <= 144,
                    n == ranks * files,
                    bitboards.wf(),
                    bitboards.rank_count == ranks,
                    bitboards.file_count == files,
                    bitboards.codes() == Seq::new(n as nat, |kk: int| crate::codec::normalized(unpack_codes(bytes, n)[kk])),
                    i < ranks,
                    j <= files,
                    k == i * files + j,
                    squares@.len() == ranks,
                    forall|a: int| 0 <= a < ranks ==> (#[trigger] squares@[a])@.len() == files,
                    forall|a: int, f: int|
                        0 <= a < ranks && 0 <= f < files ==> #[trigger] squares@[a]@[f] == (if a < i || (a == i && f < j) {
                            unpacked(bytes, ranks as int, files as int, c.last_game_moves@, c.move_count as int).rows[a][f]
                        } else {
                            decoded(bitboards.code_at(a * files + f))
                        }),
                decreases files - j,
            {
                proof {
                    assert(k < ranks * files) by (nonlinear_arith)
                        requires
                            k == i * files + j,
                            i < ranks,
                            j < files,
                    ;
                    let v = unpack_codes(bytes, n)[k as int];
                    assert(0 <= v < 16);
                    assert(bitboards.code_at(k as int) == bitboards.codes()[k as int]);
                }
                let stamp: Option<usize> = if k < c.last_game_moves.len() {
                    c.last_game_moves[k]
                } else {
                    None
                };
                let cell = squares[i][j];
                match cell {
                    Some(p) => {
                        squares[i][j] = Some(Piece { last_game_move: stamp, ..p });
                    },
                    None => {},
                }
                k += 1;
                j += 1;
            }
            proof {
                assert((i + 1) * files == i * files + files) by (nonlinear_arith);
            }
            i += 1;
        }
        let b = Board { squares, move_count: c.move_count };
        proof {
            let u = unpacked(bytes, ranks as int, files as int, c.last_game_moves@, c.move_count as int);
            assert forall|a: int| 0 <= a < ranks implies #[trigger] b@.rows[a] == u.rows[a] by {
                assert(b@.rows[a] =~= u.rows[a]);
            }
            assert(b@.rows =~= u.rows);
            assert(b@.rows[0].len() == files);
            assert forall|a: int| 0 <= a < b@.ranks() implies #[trigger] b@.rows[a].len() == b@.files() by {}
        }
        Some(b)
    }
}


/// The wire form of captured pieces: each list as one code byte per piece in
/// base 64, with the point totals.
#[derive(Debug)]
pub struct CompactCapturedPieces {
    pub white: String,
    pub white_points: u16,
    pub black: String,
    pub black_points: u16,
}

/// One code byte per piece.
pub open spec fn piece_codes(list: Seq<Piece>) -> Seq<u8> {
    Seq::new(list.len(), |i: int| code(list[i]) as u8)
}

/// The unmoved pieces that code bytes stand for, when every byte is a piece code.
pub open spec fn pieces_of(bytes: Seq<u8>) -> Option<Seq<Piece>> {
    if forall|i: int| 0 <= i < bytes.len() ==> #[trigger] bytes[i] < 12 {
        Some(Seq::new(bytes.len(), |i: int| decoded(bytes[i] as int)->Some_0))
    } else {
        None
    }
}

fn encode_list(list: &Vec<Piece>) -> (r: Vec<u8>)
    ensures
        r@ == piece_codes(list@),
{
    let mut out: Vec<u8> = Vec::new();
    let mut i: usize = 0;
    while i < list.len()
        invariant
            i <= list@.len(),
            out@ == piece_codes(list@).subrange(0, i as int),
        decreases list@.len() - i,
    {
        out.push(crate::codec::encode_piece(&list[i]));
        i += 1;
        proof {
            assert(out@ =~= piece_codes(list@).subrange(0, i as int));
        }
    }
    proof {
        assert(out@ =~= piece_codes(list@));
    }
    out
}

fn decode_list(bytes: &Vec<u8>) -> (r: Option<Vec<Piece>>)
    ensures
        match r {
            Some(v) => pieces_of(bytes@) == Some(v@),
            None => pieces_of(bytes@) is None,
        },
{
    let mut out: Vec<Piece> = Vec::new();
    let mut i: usize = 0;
    while i < bytes.len()
        invariant
            i <= bytes@.len(),
            out@.len() == i,
            forall|k: int| 0 <= k < i ==> #[trigger] bytes@[k] < 12,
            forall|k: int| 0 <= k < i ==> #[trigger] out@[k] == decoded(bytes@[k] as int)->Some_0,
        decreases bytes@.len() - i,
    {
        match crate::codec::decode_piece(bytes[i] as usize) {
            Some(p) => out.push(p),
            None => {
                return None;
            },
        }
        i += 1;
    }
    proof {
        assert(out@ =~= Seq::new(bytes@.len(), |k: int| decoded(bytes@[k] as int)->Some_0));
    }
    Some(out)
}

impl crate::game::CapturedPieces {
    /// The wire form of both capture lists.
    pub fn to_compact(&self) -> (r: CompactCapturedPieces)
        ensures
            r.white@ == base64_of(piece_codes(self.white@)),
            r.black@ == base64_of(piece_codes(self.black@)),
            base64_decoded(r.white@) == Some(piece_codes(self.white@)),
            base64_decoded(r.black@) == Some(piece_codes(self.black@)),
            r.white_points == self.white_points,
            r.black_points == self.black_points,
    {
        let w = encode_list(&self.white);
        let b = encode_list(&self.black);
        CompactCapturedPieces {
            white: crate::codec::bytes_to_base64(w.as_slice()),
            white_points: self.white_points,
            black: crate::codec::bytes_to_base64(b.as_slice()),
            black_points: self.black_points,
        }
    }

    /// Capture lists from their wire form; `None` when a list is not base 64 or
    /// holds a byte that is no piece code.
    pub fn from_compact(c: &CompactCapturedPieces) -> (r: Option<crate::game::CapturedPieces>)
        ensures
            r is Some <==> (base64_decoded(c.white@) is Some && pieces_of(base64_decoded(c.white@)->Some_0) is Some
                && base64_decoded(c.black@) is Some && pieces_of(base64_decoded(c.black@)->Some_0) is Some),
            r is Some ==> {
                let p = r->Some_0;
                &&& Some(p.white@) == pieces_of(base64_decoded(c.white@)->Some_0)
                &&& Some(p.black@) == pieces_of(base64_decoded(c.black@)->Some_0)
                &&& p.white_points == c.white_points
                &&& p.black_points == c.black_points
            },
    {
        let wb = match crate::codec::base64_to_bytes(c.white.as_str()) {
            Some(b) => b,
            None => {
                return None;
            },
        };
        let bb = match crate::codec::base64_to_bytes(c.black.as_str()) {
            Some(b) => b,
            None => {
                return None;
            },
        };
        let white = match decode_list(&wb) {
            Some(v) => v,
            None => {
                return None;
            },
        };
        let black = match decode_list(&bb) {
            Some(v) => v,
            None => {
                return None;
            },
        };
        Some(crate::game::CapturedPieces { white, white_points: c.white_points, black, black_points: c.black_points })
    }
}

/// Decoding the code bytes of a capture list gives the list back, stamps aside.
pub proof fn lemma_captured_round_trip(list: Seq<Piece>)
    requires
        forall|i: int| 0 <= i < list.len() ==> (#[trigger] list[i]).last_game_move is None,
    ensures
        pieces_of(piece_codes(list)) == Some(list),
{
    let bytes = piece_codes(list);
    assert forall|i: int| 0 <= i < bytes.len() implies #[trigger] bytes[i] < 12 by {
        assert(bytes[i] == code(list[i]) as u8);
    }
    assert(Seq::new(bytes.len(), |i: int| decoded(bytes[i] as int)->Some_0) =~= list);
}

/// The wire form that `Board::to_compact` makes of a board is one that
/// `Board::from_compact` accepts, and it gives the same board back: squares,
/// move stamps and move count.
pub proof fn lemma_wire_round_trip(b: BoardView, c: &CompactBoard)
    requires
        b.wf(),
        base64_decoded(c.squares@) == Some(compact(b)),
        c.last_game_moves@ == board_stamps(b),
        c.dimensions.ranks == b.ranks(),
        c.dimensions.files == b.files(),
        c.move_count == b.move_count,
    ensures
        1 <= c.dimensions.ranks <= MAX_DIMENSION,
        1 <= c.dimensions.files <= MAX_DIMENSION,
        2 * base64_decoded(c.squares@)->Some_0.len() >= c.dimensions.ranks * c.dimensions.files,
        unpacked(
            base64_decoded(c.squares@)->Some_0,
            c.dimensions.ranks as int,
            c.dimensions.files as int,
            c.last_game_moves@,
            c.move_count as int,
        ) == b,
{
    lemma_compact_round_trip(b);
}

} // verus!
