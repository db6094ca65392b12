use vstd::prelude::*;

use rand::seq::IndexedRandom;

use crate::board::{Board, BoardSetup, BoardView, MAX_DIMENSION};
use crate::piece::{Color, Piece, PieceType};

verus! {

/// Relies on rand's `IndexedRandom::choose` with the thread-local generator: for a
/// non-empty slice it returns one of its elements.
#[verifier::external_body]
fn choose_piece_type(options: &Vec<PieceType>) -> (r: PieceType)
    requires
        options@.len() > 0,
    ensures
        options@.contains(r),
{
    *options.choose(&mut rand::rng()).unwrap()
}

/// The conventional back rank, file by file (0-based).
pub open spec fn standard_back_rank(i: int) -> PieceType {
    if i == 0 || i == 7 {
        PieceType::Rook
    } else if i == 1 || i == 6 {
        PieceType::Knight
    } else if i == 2 || i == 5 {
        PieceType::Bishop
    } else if i == 3 {
        PieceType::Queen
    } else {
        PieceType::King
    }
}

pub open spec fn unmoved(t: PieceType, c: Color) -> Option<Piece> {
    Some(Piece { piece_type: t, color: c, last_game_move: None })
}

/// Black's outer and pawn ranks on top, White's mirrored at the bottom, the
/// rest empty, no move made; `outer(i)` gives the outer piece type on file `i` (0-based).
pub open spec fn mirrored_layout(b: BoardView, ranks: int, files: int, outer: spec_fn(int) -> PieceType) -> bool {
    &&& b.wf()
    &&& b.ranks() == ranks
    &&& b.files() == files
    &&& b.move_count == 0
    &&& forall|i: int| 0 <= i < files ==> #[trigger] b.rows[0][i] == unmoved(outer(i), Color::Black)
    &&& forall|i: int| 0 <= i < files ==> #[trigger] b.rows[1][i] == unmoved(PieceType::Pawn, Color::Black)
    &&& forall|i: int| 0 <= i < files ==> #[trigger] b.rows[ranks - 2][i] == unmoved(PieceType::Pawn, Color::White)
    &&& forall|i: int| 0 <= i < files ==> #[trigger] b.rows[ranks - 1][i] == unmoved(outer(i), Color::White)
    &&& forall|r: int, i: int| 2 <= r < ranks - 2 && 0 <= i < files ==> #[trigger] b.rows[r][i] is None
}

pub open spec fn outer_type(b: BoardView, i: int) -> PieceType {
    b.rows[0][i]->Some_0.piece_type
}

impl BoardSetup {
    /// Dimensions the setup can be laid out on: four to twelve ranks, one to twelve files.
    pub open spec fn valid(self) -> bool {
        match self {
            BoardSetup::Standard => true,
            BoardSetup::Random(d) | BoardSetup::KingAndOneOtherPiece(d) => 4 <= d.ranks <= MAX_DIMENSION && 1
                <= d.files <= MAX_DIMENSION,
        }
    }

    /// `b` is a board that this setup may produce.
    pub open spec fn produces(self, b: BoardView) -> bool {
        match self {
            BoardSetup::Standard => mirrored_layout(b, 8, 8, |i: int| standard_back_rank(i)),
            BoardSetup::Random(d) => {
                &&& mirrored_layout(b, d.ranks as int, d.files as int, |i: int| outer_type(b, i))
                &&& forall|i: int|
                    0 <= i < d.files ==> (#[trigger] outer_type(b, i) == PieceType::King) == (i == d.files / 2)
                &&& forall|i: int| 0 <= i < d.files && i != d.files / 2 ==> #[trigger] outer_type(b, i) != PieceType::Pawn
            },
            BoardSetup::KingAndOneOtherPiece(d) => {
                &&& mirrored_layout(b, d.ranks as int, d.files as int, |i: int| outer_type(b, i))
                &&& forall|i: int|
                    0 <= i < d.files ==> (#[trigger] outer_type(b, i) == PieceType::King) == (i == d.files / 2)
                &&& forall|i: int, j: int|
                    0 <= i < d.files && 0 <= j < d.files && i != d.files / 2 && j != d.files / 2 ==> #[trigger] outer_type(b, i)
                        == #[trigger] outer_type(b, j)
            },
        }
    }

    /// Lays out the starting position. `Random` draws each outer piece from rook,
    /// knight, bishop and queen; `KingAndOneOtherPiece` draws one type from those
    /// and the pawn for the whole outer rank. The king stands on file `files / 2 + 1`.
    pub fn setup_board(&self) -> (r: Board)
        requires
            self.valid(),
        ensures
            r.wf(),
            self.produces(r@),
    {
        match self {
            BoardSetup::Standard => {
                let mut outer: Vec<PieceType> = Vec::new();
                outer.push(PieceType::Rook);
                outer.push(PieceType::Knight);
                outer.push(PieceType::Bishop);
                outer.push(PieceType::Queen);
                outer.push(PieceType::King);
                outer.push(PieceType::Bishop);
                outer.push(PieceType::Knight);
                outer.push(PieceType::Rook);
                let b = layout(8, &outer);
                proof {
                    assert forall|i: int| 0 <= i < 8 implies outer@[i] == standard_back_rank(i) by {}
                }
                b
            },
            BoardSetup::Random(dimensions) => {
                let available: Vec<PieceType> = vec![
                    PieceType::Rook,
                    PieceType::Knight,
                    PieceType::Bishop,
                    PieceType::Queen,
                ];
                let king_file = dimensions.files / 2;
                let mut outer: Vec<PieceType> = Vec::new();
                let mut i: usize = 0;
                while i < dimensions.files
                    invariant
                        i <= dimensions.files,
                        king_file == dimensions.files / 2,
                        available@ == seq![PieceType::Rook, PieceType::Knight, PieceType::Bishop, PieceType::Queen],
                        outer@.len() == i,
                        forall|k: int| 0 <= k < i ==> (#[trigger] outer@[k] == PieceType::King) == (k == king_file),
                        forall|k: int| 0 <= k < i ==> #[trigger] outer@[k] != PieceType::Pawn || k == king_file,
                    decreases dimensions.files - i,
                {
                    if i == king_file {
                        outer.push(PieceType::King);
                    } else {
                        let t = choose_piece_type(&available);
                        outer.push(t);
                    }
                    i += 1;
                }
                let b = layout(dimensions.ranks, &outer);
                b
            },
            BoardSetup::KingAndOneOtherPiece(dimensions) => {
                let available: Vec<PieceType> = vec![
                    PieceType::Rook,
                    PieceType::Knight,
                    PieceType::Bishop,
                    PieceType::Queen,
                    PieceType::Pawn,
                ];
                let other = choose_piece_type(&available);
                let king_file = dimensions.files / 2;
                let mut outer: Vec<PieceType> = Vec::new();
                let mut i: usize = 0;
                while i < dimensions.files
                    invariant
                        i <= dimensions.files,
                        king_file == dimensions.files / 2,
                        other != PieceType::King,
                        outer@.len() == i,
                        forall|k: int| 0 <= k < i ==> #[trigger] outer@[k] == (if k == king_file { PieceType::King } else { other }),
                    decreases dimensions.files - i,
                {
                    if i == king_file {
                        outer.push(PieceType::King);
                    } else {
                        outer.push(other);
                    }
                    i += 1;
                }
                let b = layout(dimensions.ranks, &outer);
                b
            },
        }
    }
}

/// A row of `n` copies of `square`.
fn uniform_row(n: usize, square: Option<Piece>) -> (r: Vec<Option<Piece>>)
    ensures
        r@.len() == n,
        forall|i: int| 0 <= i < n ==> #[trigger] r@[i] == square,
{
    let mut r: Vec<Option<Piece>> = Vec::new();
    let mut i: usize = 0;
    while i < n
        invariant
            i <= n,
            r@.len() == i,
            forall|k: int| 0 <= k < i ==> #[trigger] r@[k] == square,
        decreases n - i,
    {
        r.push(square);
        i += 1;
    }
    r
}

/// The outer rank of `color` with the types of `outer`.
fn outer_row(outer: &Vec<PieceType>, color: Color) -> (r: Vec<Option<Piece>>)
    ensures
        r@.len() == outer@.len(),
        forall|i: int| 0 <= i < outer@.len() ==> #[trigger] r@[i] == unmoved(outer@[i], color),
{
    let mut r: Vec<Option<Piece>> = Vec::new();
    let mut i: usize = 0;
    while i < outer.len()
        invariant
            i <= outer@.len(),
            r@.len() == i,
            forall|k: int| 0 <= k < i ==> #[trigger] r@[k] == unmoved(outer@[k], color),
        decreases outer@.len() - i,
    {
        r.push(Some(Piece::new(outer[i], color)));
        i += 1;
    }
    r
}

/// The mirrored starting layout on `ranks` ranks with outer types `outer`.
fn layout(ranks: usize, outer: &Vec<PieceType>) -> (b: Board)
    requires
        4 <= ranks <= MAX_DIMENSION,
        1 <= outer@.len() <= MAX_DIMENSION,
    ensures
        mirrored_layout(b@, ranks as int, outer@.len() as int, |i: int| outer@[i]),
        forall|i: int| 0 <= i < outer@.len() ==> #[trigger] outer_type(b@, i) == outer@[i],
{
    let files = outer.len();
    let mut squares: Vec<Vec<Option<Piece>>> = Vec::new();
    squares.push(outer_row(outer, Color::Black));
    squares.push(uniform_row(files, Some(Piece::new(PieceType::Pawn, Color::Black))));
    let mut r: usize = 2;
    while r < ranks - 2
        invariant
            2 <= r <= ranks - 2,
            ranks <= MAX_DIMENSION,
            files == outer@.len(),
            squares@.len() == r,
            forall|k: int| 0 <= k < r ==> (#[trigger] squares@[k])@.len() == files,
            forall|i: int| 0 <= i < files ==> #[trigger] squares@[0]@[i] == unmoved(outer@[i], Color::Black),
            forall|i: int| 0 <= i < files ==> #[trigger] squares@[1]@[i] == unmoved(PieceType::Pawn, Color::Black),
            forall|k: int, i: int| 2 <= k < r && 0 <= i < files ==> #[trigger] squares@[k]@[i] is None,
        decreases ranks - r,
    {
        squares.push(uniform_row(files, None));
        r += 1;
    }
    squares.push(uniform_row(files, Some(Piece::new(PieceType::Pawn, Color::White))));
    squares.push(outer_row(outer, Color::White));
    let b = Board { squares, move_count: 0 };
    proof {
        assert(b@.rows.len() == ranks);
        assert forall|i: int| 0 <= i < b@.ranks() implies #[trigger] b@.rows[i].len() == b@.files() by {}
    }
    b
}

impl Board {
    /// A board laid out by `board_setup`.
    pub fn new(board_setup: &BoardSetup) -> (r: Board)
        requires
            board_setup.valid(),
        ensures
            r.wf(),
            board_setup.produces(r@),
    {
        board_setup.setup_board()
    }
}

} // verus!
