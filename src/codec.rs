use vstd::prelude::*;

use base64::{engine::general_purpose, Engine as _};

use crate::board::BoardView;
use crate::piece::{Color, Piece, PieceType};

verus! {

/// The number of piece codes: six types for each of two colors.
pub const NUM_PIECE_TYPES: usize = 12;

/// The code of an empty square in the packed form.
pub const EMPTY_CODE: u8 = 15;

/// A piece's code: its type index, plus six for Black.
pub open spec fn code(p: Piece) -> int {
    p.piece_type.index() + if p.color == Color::Black {
        6int
    } else {
        0int
    }
}

pub open spec fn square_code(sq: Option<Piece>) -> int {
    match sq {
        Some(p) => code(p),
        None => EMPTY_CODE as int,
    }
}

pub open spec fn type_of_index(i: int) -> PieceType {
    if i == 0 {
        PieceType::Pawn
    } else if i == 1 {
        PieceType::Knight
    } else if i == 2 {
        PieceType::Bishop
    } else if i == 3 {
        PieceType::Rook
    } else if i == 4 {
        PieceType::Queen
    } else {
        PieceType::King
    }
}

/// The unmoved piece of code `c`, or nothing when `c` is not a piece code.
pub open spec fn decoded(c: int) -> Option<Piece> {
    if 0 <= c < 12 {
        Some(
            Piece {
                piece_type: type_of_index(c % 6),
                color: if c >= 6 {
                    Color::Black
                } else {
                    Color::White
                },
                last_game_move: None,
            },
        )
    } else {
        None
    }
}

pub fn encode_piece(piece: &Piece) -> (r: u8)
    ensures
        r == code(*piece),
{
    let base = piece.piece_type.to_index();
    base + if piece.color == Color::Black {
        6
    } else {
        0
    }
}

pub fn decode_piece(piece_type_byte: usize) -> (r: Option<Piece>)
    ensures
        r == decoded(piece_type_byte as int),
{
    if piece_type_byte >= NUM_PIECE_TYPES {
        return None;
    }
    let color = if piece_type_byte >= 6 {
        Color::Black
    } else {
        Color::White
    };
    let piece_type = PieceType::from_index(piece_type_byte % 6);
    Some(Piece { piece_type, color, last_game_move: None })
}

/// Codes of the squares in traversal order: from the top rank down, files left to right.
pub open spec fn board_codes(b: BoardView) -> Seq<int> {
    Seq::new((b.ranks() * b.files()) as nat, |k: int| square_code(b.rows[k / b.files()][k % b.files()]))
}

/// Move stamps of the squares in traversal order; absent for empty or unmoved squares.
pub open spec fn board_stamps(b: BoardView) -> Seq<Option<usize>> {
    Seq::new(
        (b.ranks() * b.files()) as nat,
        |k: int|
            match b.rows[k / b.files()][k % b.files()] {
                Some(p) => p.last_game_move,
                None => None,
            },
    )
}

/// Two codes per byte, the even-indexed one in the high nibble; an odd count
/// ends with an empty low nibble.
pub open spec fn pack_codes(c: Seq<int>) -> Seq<u8> {
    Seq::new(
        ((c.len() + 1) / 2) as nat,
        |i: int|
            ((if 2 * i < c.len() { c[2 * i] } else { 15 }) * 16 + (if 2 * i + 1 < c.len() { c[2 * i + 1] } else { 15 })) as u8,
    )
}

/// The `n` codes held in `bytes`, high nibble first.
pub open spec fn unpack_codes(bytes: Seq<u8>, n: int) -> Seq<int> {
    Seq::new(n as nat, |k: int| if k % 2 == 0 { bytes[k / 2] as int / 16 } else { bytes[k / 2] as int % 16 })
}

/// A piece code kept as is, any other nibble read as an empty square.
pub open spec fn normalized(c: int) -> int {
    if 0 <= c < 12 {
        c
    } else {
        15
    }
}

pub open spec fn compact(b: BoardView) -> Seq<u8> {
    pack_codes(board_codes(b))
}

/// The board that packed `bytes`, per-square `stamps` and `move_count` describe.
pub open spec fn unpacked(bytes: Seq<u8>, ranks: int, files: int, stamps: Seq<Option<usize>>, move_count: int) -> BoardView {
    BoardView {
        rows: Seq::new(
            ranks as nat,
            |r: int|
                Seq::new(
                    files as nat,
                    |f: int|
                        match decoded(unpack_codes(bytes, ranks * files)[r * files + f]) {
                            Some(p) => Some(
                                Piece {
                                    last_game_move: if r * files + f < stamps.len() {
                                        stamps[r * files + f]
                                    } else {
                                        None
                                    },
                                    ..p
                                },
                            ),
                            None => None,
                        },
                ),
        ),
        move_count,
    }
}

/// The name of what base64's standard engine encodes `b` to.
pub uninterp spec fn base64_of(b: Seq<u8>) -> Seq<char>;

/// The name of what base64's standard engine decodes `s` to, when `s` is valid.
pub uninterp spec fn base64_decoded(s: Seq<char>) -> Option<Seq<u8>>;

/// Relies on base64's `STANDARD` engine `encode`: the padded base-64 text of
/// `bytes`, which the same engine's `decode` turns back into `bytes`.
#[verifier::external_body]
pub(crate) fn bytes_to_base64(bytes: &[u8]) -> (r: String)
    ensures
        r@ == base64_of(bytes@),
        base64_decoded(r@) == Some(bytes@),
{
    general_purpose::STANDARD.encode(bytes)
}

/// Relies on base64's `STANDARD` engine `decode`: the bytes of valid padded
/// base-64 text, or an error.
#[verifier::external_body]
pub(crate) fn base64_to_bytes(s: &str) -> (r: Option<Vec<u8>>)
    ensures
        match r {
            Some(v) => base64_decoded(s@) == Some(v@),
            None => base64_decoded(s@) is None,
        },
{
    general_purpose::STANDARD.decode(s).ok()
}

/// Codes that are piece codes or the empty code survive packing and unpacking.
pub proof fn lemma_codes_round_trip(c: Seq<int>)
    requires
        forall|k: int| 0 <= k < c.len() ==> (0 <= #[trigger] c[k] < 12 || c[k] == 15),
    ensures
        Seq::new(c.len(), |k: int| normalized(unpack_codes(pack_codes(c), c.len() as int)[k])) == c,
{
    let n = c.len() as int;
    assert forall|k: int| 0 <= k < n implies #[trigger] normalized(unpack_codes(pack_codes(c), n)[k]) == c[k] by {
        let i = k / 2;
        let hi = if 2 * i < n { c[2 * i] } else { 15 };
        let lo = if 2 * i + 1 < n { c[2 * i + 1] } else { 15 };
        assert(0 <= hi < 16 && 0 <= lo < 16);
        assert(((hi * 16 + lo) as u8) as int / 16 == hi && ((hi * 16 + lo) as u8) as int % 16 == lo);
    }
    assert(Seq::new(c.len(), |k: int| normalized(unpack_codes(pack_codes(c), n)[k])) =~= c);
}

} // verus!
