use vstd::prelude::*;

use crate::piece::Piece;

verus! {

/// A 1-based rank; rank 1 is the bottom of the diagram (White's home rank).
#[derive(Clone, Copy, Debug, PartialEq, Eq, Structural)]
pub struct Rank(pub usize);

impl Rank {
    /// The 0-based index of the rank.
    pub fn to_index(&self) -> (r: usize)
        requires
            self.0 >= 1,
        ensures
            r == self.0 - 1,
    {
        self.0 - 1
    }
}

/// A 1-based file; file 1 is the left edge of the diagram.
#[derive(Clone, Copy, Debug, PartialEq, Eq, Structural)]
pub struct File(pub usize);

impl File {
    /// The 0-based index of the file.
    pub fn to_index(&self) -> (r: usize)
        requires
            self.0 >= 1,
        ensures
            r == self.0 - 1,
    {
        self.0 - 1
    }
}

#[derive(Clone, Copy, Debug, PartialEq, Eq, Structural)]
pub struct Position {
    pub rank: Rank,
    pub file: File,
}

impl Position {
    pub open spec fn r(self) -> int {
        self.rank.0 as int
    }

    pub open spec fn f(self) -> int {
        self.file.0 as int
    }
}

/// Builds a position from a rank and a file.
pub fn pos(rank: usize, file: usize) -> (r: Position)
    ensures
        r.r() == rank,
        r.f() == file,
{
    Position { rank: Rank(rank), file: File(file) }
}

#[derive(Clone, Copy, Debug, PartialEq, Eq, Structural)]
pub struct BoardDimensions {
    pub ranks: usize,
    pub files: usize,
}

/// A move from one square to another.
#[derive(Clone, Copy, Debug, PartialEq, Eq, Structural)]
pub struct PlayerMove {
    pub from: Position,
    pub to: Position,
}

/// The largest number of ranks or files a board may have.
pub const MAX_DIMENSION: usize = 12;

#[derive(Clone, Copy, Debug, PartialEq, Eq, Structural)]
pub enum BoardSetup {
    Standard,
    Random(BoardDimensions),
    KingAndOneOtherPiece(BoardDimensions),
}

/// The mathematical board: rows from the top rank down, files left to right,
/// and the move counter.
pub ghost struct BoardView {
    pub rows: Seq<Seq<Option<Piece>>>,
    pub move_count: int,
}

impl BoardView {
    pub open spec fn ranks(self) -> int {
        self.rows.len() as int
    }

    pub open spec fn files(self) -> int {
        if self.rows.len() == 0 {
            0
        } else {
            self.rows[0].len() as int
        }
    }

    /// Between one and twelve ranks and files, every row of the same length.
    pub open spec fn wf(self) -> bool {
        &&& 1 <= self.ranks() <= MAX_DIMENSION
        &&& 1 <= self.files() <= MAX_DIMENSION
        &&& forall|i: int| 0 <= i < self.ranks() ==> #[trigger] self.rows[i].len() == self.files()
    }

    pub open spec fn in_bounds(self, r: int, f: int) -> bool {
        1 <= r <= self.ranks() && 1 <= f <= self.files()
    }

    /// The square at rank `r`, file `f` (1-based).
    pub open spec fn at(self, r: int, f: int) -> Option<Piece> {
        self.rows[self.ranks() - r][f - 1]
    }

    pub open spec fn set(self, r: int, f: int, p: Option<Piece>) -> BoardView {
        BoardView {
            rows: self.rows.update(self.ranks() - r, self.rows[self.ranks() - r].update(f - 1, p)),
            move_count: self.move_count,
        }
    }
}

/// A board: `squares[0]` is the top rank, `squares[len - 1]` is rank 1.
#[derive(Debug)]
pub struct Board {
    pub squares: Vec<Vec<Option<Piece>>>,
    pub move_count: usize,
}

impl View for Board {
    type V = BoardView;

    open spec fn view(&self) -> BoardView {
        BoardView {
            rows: self.squares@.map_values(|row: Vec<Option<Piece>>| row@),
            move_count: self.move_count as int,
        }
    }
}

impl Clone for Board {
    fn clone(&self) -> (r: Self)
        ensures
            r@ == self@,
    {
        let mut squares: Vec<Vec<Option<Piece>>> = Vec::new();
        let mut i: usize = 0;
        while i < self.squares.len()
            invariant
                i <= self.squares.len(),
                squares@.len() == i,
                forall|k: int| 0 <= k < i ==> #[trigger] squares@[k]@ == self.squares@[k]@,
            decreases self.squares.len() - i,
        {
            let mut row: Vec<Option<Piece>> = Vec::new();
            let mut j: usize = 0;
            while j < self.squares[i].len()
                invariant
                    i < self.squares.len(),
                    j <= self.squares@[i as int].len(),
                    row@ == self.squares@[i as int]@.subrange(0, j as int),
                decreases self.squares@[i as int].len() - j,
            {
                row.push(self.squares[i][j]);
                j += 1;
                proof {
                    assert(row@ =~= self.squares@[i as int]@.subrange(0, j as int));
                }
            }
            proof {
                assert(row@ =~= self.squares@[i as int]@);
            }
            squares.push(row);
            i += 1;
        }
        let r = Board { squares, move_count: self.move_count };
        proof {
            assert(r@.rows =~= self@.rows);
        }
        r
    }
}

impl Board {
    pub open spec fn wf(&self) -> bool {
        self@.wf()
    }

    pub fn num_ranks(&self) -> (r: usize)
        ensures
            r == self@.ranks(),
    {
        self.squares.len()
    }

    pub fn num_files(&self) -> (r: usize)
        requires
            self.wf(),
        ensures
            r == self@.files(),
    {
        self.squares[0].len()
    }

    pub fn is_valid_board_position(&self, position: &Position) -> (r: bool)
        requires
            self.wf(),
        ensures
            r == self@.in_bounds(position.r(), position.f()),
    {
        position.rank.0 > 0 && position.file.0 > 0 && position.rank.0 <= self.squares.len()
            && position.file.0 <= self.squares[0].len()
    }

    /// The piece at `position`, or `None` when the square is empty or off the board.
    pub fn get_piece_at_position(&self, position: &Position) -> (r: Option<Piece>)
        requires
            self.wf(),
        ensures
            r == (if self@.in_bounds(position.r(), position.f()) {
                self@.at(position.r(), position.f())
            } else {
                None
            }),
    {
        if !self.is_valid_board_position(position) {
            return None;
        }
        let rank_index = self.squares.len() - position.rank.0;
        let file_index = position.file.to_index();
        proof {
            assert(self@.rows[rank_index as int].len() == self@.files());
        }
        self.squares[rank_index][file_index]
    }

    /// Puts `piece` on `position`; a position off the board leaves the board as it was.
    pub fn set_piece_at_position(&mut self, position: &Position, piece: Option<Piece>)
        requires
            old(self).wf(),
        ensures
            final(self)@ == (if old(self)@.in_bounds(position.r(), position.f()) {
                old(self)@.set(position.r(), position.f(), piece)
            } else {
                old(self)@
            }),
            final(self).wf(),
    {
        if !self.is_valid_board_position(position) {
            return;
        }
        let rank_index = self.squares.len() - position.rank.0;
        let file_index = position.file.to_index();
        proof {
            assert(self@.rows[rank_index as int].len() == self@.files());
        }
        self.squares[rank_index][file_index] = piece;
        proof {
            let nv = self@;
            let ov = old(self)@.set(position.r(), position.f(), piece);
            assert(nv.rows =~= ov.rows);
        }
    }
}

} // verus!
