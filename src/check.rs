use vstd::prelude::*;

use crate::apply::{applicable, apply_view};
use crate::board::{pos, Board, BoardView, PlayerMove, Position};
use crate::movegen::{base_move, on_ray, pos_at, push_if, slides_to, step_ok};
use crate::piece::{Color, Piece, PieceType};

verus! {

/// A piece of color `by` on rank `r`, file `f` attacks `t`.
pub open spec fn attacker_at(b: BoardView, r: int, f: int, by: Color, t: Position) -> bool {
    &&& b.in_bounds(r, f)
    &&& b.at(r, f) is Some
    &&& b.at(r, f)->Some_0.color == by
    &&& base_move(b, b.at(r, f)->Some_0, pos_at(r, f), t)
}

pub open spec fn attacked_by(b: BoardView, t: Position, by: Color) -> bool {
    exists|r: int, f: int| #[trigger] attacker_at(b, r, f, by, t)
}

pub open spec fn king_at(b: BoardView, r: int, f: int, c: Color) -> bool {
    &&& b.in_bounds(r, f)
    &&& b.at(r, f) is Some
    &&& b.at(r, f)->Some_0.piece_type == PieceType::King
    &&& b.at(r, f)->Some_0.color == c
}

/// A king of color `c` stands on a square that an opposing piece attacks.
pub open spec fn in_check(b: BoardView, c: Color) -> bool {
    exists|r: int, f: int| #[trigger] king_at(b, r, f, c) && attacked_by(b, pos_at(r, f), c.opposite())
}

/// Row-major scan order over the board: row index `i` (0 is the top rank), then file.
pub open spec fn scanned(b: BoardView, r: int, f: int, i: int, j: int) -> bool {
    b.ranks() - r < i || (b.ranks() - r == i && f <= j)
}

pub proof fn lemma_base_move_in_bounds(b: BoardView, p: Piece, from: Position, to: Position)
    requires
        b.wf(),
        b.in_bounds(from.r(), from.f()),
        base_move(b, p, from, to),
    ensures
        b.in_bounds(to.r(), to.f()),
{
    match p.piece_type {
        PieceType::Bishop | PieceType::Rook | PieceType::Queen => {
            let ds = if p.piece_type == PieceType::Bishop {
                crate::movegen::bishop_dirs()
            } else if p.piece_type == PieceType::Rook {
                crate::movegen::rook_dirs()
            } else {
                crate::movegen::queen_dirs()
            };
            let i = choose|i: int| 0 <= i < ds.len() && #[trigger] slides_to(b, p.color, from, to, ds[i].0 as int, ds[i].1 as int);
            let k = choose|k: int| k >= 1 && #[trigger] on_ray(from, to, ds[i].0 as int, ds[i].1 as int, k)
                && crate::movegen::ray_clear(b, from, ds[i].0 as int, ds[i].1 as int, k) && step_ok(b, p.color, to.r(), to.f());
        },
        _ => {},
    }
}

/// Whether `v` holds `t`.
pub fn contains_position(v: &Vec<Position>, t: &Position) -> (r: bool)
    ensures
        r == v@.contains(*t),
{
    let mut i: usize = 0;
    while i < v.len()
        invariant
            i <= v@.len(),
            forall|k: int| 0 <= k < i ==> v@[k] != *t,
        decreases v@.len() - i,
    {
        if v[i] == *t {
            return true;
        }
        i += 1;
    }
    false
}

impl Board {
    /// Whether a piece of color `by` attacks `target`.
    pub fn is_square_attacked(&self, target: &Position, by: Color) -> (r: bool)
        requires
            self.wf(),
        ensures
            r == attacked_by(self@, *target, by),
    {
        let ranks = self.num_ranks();
        let files = self.num_files();
        let mut i: usize = 0;
        while i < ranks
            invariant
                self.wf(),
                ranks == self@.ranks(),
                files == self@.files(),
                i <= ranks,
                forall|r: int, f: int| self@.in_bounds(r, f) && scanned(self@, r, f, i as int, 0) ==> !#[trigger] attacker_at(self@, r, f, by, *target),
            decreases ranks - i,
        {
            let mut j: usize = 0;
            while j < files
                invariant
                    self.wf(),
                    ranks == self@.ranks(),
                    files == self@.files(),
                    i < ranks,
                    j <= files,
                    forall|r: int, f: int| self@.in_bounds(r, f) && scanned(self@, r, f, i as int, j as int) ==> !#[trigger] attacker_at(self@, r, f, by, *target),
                decreases files - j,
            {
                let here = pos(ranks - i, j + 1);
                match self.get_piece_at_position(&here) {
                    Some(p) => {
                        if p.color == by {
                            let moves = p.base_moves(self, &here);
                            if contains_position(&moves, target) {
                                proof {
                                    assert(attacker_at(self@, (ranks - i) as int, (j + 1) as int, by, *target));
                                }
                                return true;
                            }
                        }
                    },
                    None => {},
                }
                proof {
                    assert(!attacker_at(self@, (ranks - i) as int, (j + 1) as int, by, *target));
                }
                j += 1;
            }
            i += 1;
        }
        false
    }

    /// Whether a king of `color` stands attacked by an opposing piece.
    pub fn is_king_in_check(&self, color: &Color) -> (r: bool)
        requires
            self.wf(),
        ensures
            r == in_check(self@, *color),
    {
        let ranks = self.num_ranks();
        let files = self.num_files();
        let opponent = color.opponent_color();
        let mut i: usize = 0;
        while i < ranks
            invariant
                self.wf(),
                ranks == self@.ranks(),
                files == self@.files(),
                opponent == color.opposite(),
                i <= ranks,
                forall|r: int, f: int| self@.in_bounds(r, f) && scanned(self@, r, f, i as int, 0) ==> !(#[trigger] king_at(self@, r, f, *color) && attacked_by(self@, pos_at(r, f), color.opposite())),
            decreases ranks - i,
        {
            let mut j: usize = 0;
            while j < files
                invariant
                    self.wf(),
                    ranks == self@.ranks(),
                    files == self@.files(),
                    opponent == color.opposite(),
                    i < ranks,
                    j <= files,
                    forall|r: int, f: int| self@.in_bounds(r, f) && scanned(self@, r, f, i as int, j as int) ==> !(#[trigger] king_at(self@, r, f, *color) && attacked_by(self@, pos_at(r, f), color.opposite())),
                decreases files - j,
            {
                let here = pos(ranks - i, j + 1);
                match self.get_piece_at_position(&here) {
                    Some(p) => {
                        if p.piece_type == PieceType::King && p.color == *color {
                            if self.is_square_attacked(&here, opponent) {
                                proof {
                                    assert(king_at(self@, (ranks - i) as int, (j + 1) as int, *color));
                                }
                                return true;
                            }
                        }
                    },
                    None => {},
                }
                j += 1;
            }
            i += 1;
        }
        proof {
            assert forall|r: int, f: int| #[trigger] king_at(self@, r, f, *color) implies !attacked_by(self@, pos_at(r, f), color.opposite()) by {
                assert(scanned(self@, r, f, i as int, 0));
            }
        }
        false
    }
}


pub open spec fn king_move(from: Position, file: int) -> PlayerMove {
    PlayerMove { from, to: pos_at(from.r(), file) }
}

/// An unmoved rook of color `c` on rank `r`, file `f`.
pub open spec fn unmoved_rook(b: BoardView, r: int, f: int, c: Color) -> bool {
    &&& b.at(r, f) is Some
    &&& b.at(r, f)->Some_0.piece_type == PieceType::Rook
    &&& b.at(r, f)->Some_0.color == c
    &&& b.at(r, f)->Some_0.last_game_move is None
}

/// Castling toward file 1 (`upper` false) or toward the last file (`upper` true)
/// is open to the king of color `c` on `from`: the corner holds an unmoved rook of
/// its color, every square strictly between is empty, and the king is in check
/// neither on the square it passes nor on the square it lands on.
pub open spec fn castle_side_ok(b: BoardView, c: Color, from: Position, upper: bool) -> bool {
    let corner = if upper {
        b.files()
    } else {
        1
    };
    let step = if upper {
        1int
    } else {
        -1int
    };
    &&& if upper {
        from.f() + 3 <= b.files()
    } else {
        from.f() >= 4
    }
    &&& forall|f: int|
        (if upper {
            from.f() < f < b.files()
        } else {
            1 < f < from.f()
        }) ==> #[trigger] b.at(from.r(), f) is None
    &&& unmoved_rook(b, from.r(), corner, c)
    &&& !in_check(apply_view(b, king_move(from, from.f() + step)), c)
    &&& !in_check(apply_view(b, king_move(from, from.f() + 2 * step)), c)
}

/// The squares that select a castling move on one side: the rook's corner and
/// the squares from the king's landing square up to the rook.
pub open spec fn castle_square(b: BoardView, from: Position, to: Position, upper: bool) -> bool {
    &&& to.r() == from.r()
    &&& if upper {
        to.f() == b.files() || from.f() + 2 <= to.f() < b.files()
    } else {
        to.f() == 1 || 1 < to.f() <= from.f() - 2
    }
}

/// `to` selects a castling move of the unmoved king `p` on `from`, which is not in check.
pub open spec fn castle_target(b: BoardView, p: Piece, from: Position, to: Position) -> bool {
    &&& p.piece_type == PieceType::King
    &&& p.last_game_move is None
    &&& !in_check(b, p.color)
    &&& ((castle_side_ok(b, p.color, from, true) && castle_square(b, from, to, true))
        || (castle_side_ok(b, p.color, from, false) && castle_square(b, from, to, false)))
}

/// Every destination of piece `p` on `from`, ignoring whether its own king is left in check.
pub open spec fn legal_target(b: BoardView, p: Piece, from: Position, to: Position) -> bool {
    base_move(b, p, from, to) || castle_target(b, p, from, to)
}

/// Why a move is refused.
#[derive(Clone, Copy, Debug, PartialEq, Eq, Structural)]
pub enum MoveError {
    /// The origin is empty or holds a piece of the other side.
    NotYourPiece,
    /// The destination is off the board.
    OutOfBounds,
    /// The piece cannot reach the destination.
    IllegalForPiece,
    /// The move would leave the mover's own king in check.
    SelfCheck,
}

impl MoveError {
    pub fn message(&self) -> (r: &'static str) {
        match self {
            MoveError::NotYourPiece => "Move does not originate from one of your pieces",
            MoveError::OutOfBounds => "Move destination is out of bounds",
            MoveError::IllegalForPiece => "Invalid move",
            MoveError::SelfCheck => "Move would place your own king in check",
        }
    }
}

pub open spec fn own_piece_at(b: BoardView, p: Position, side: Color) -> bool {
    b.in_bounds(p.r(), p.f()) && b.at(p.r(), p.f()) is Some && b.at(p.r(), p.f())->Some_0.color == side
}

/// The outcome of validating move `m` for `side` on `b`.
pub open spec fn validation(b: BoardView, m: PlayerMove, side: Color) -> Result<(), MoveError> {
    if !own_piece_at(b, m.from, side) {
        Err(MoveError::NotYourPiece)
    } else if !b.in_bounds(m.to.r(), m.to.f()) {
        Err(MoveError::OutOfBounds)
    } else if !legal_target(b, b.at(m.from.r(), m.from.f())->Some_0, m.from, m.to) {
        Err(MoveError::IllegalForPiece)
    } else if in_check(apply_view(b, m), side) {
        Err(MoveError::SelfCheck)
    } else {
        Ok(())
    }
}

impl Piece {
    /// The castling squares of one side for this king on `king_position`.
    fn castling_side(&self, board: &Board, king_position: &Position, upper: bool) -> (res: Vec<Position>)
        requires
            board.wf(),
            board@.in_bounds(king_position.r(), king_position.f()),
            board@.at(king_position.r(), king_position.f()) == Some(*self),
            board@.move_count < usize::MAX,
        ensures
            forall|q: Position| #[trigger] res@.contains(q) <==> castle_side_ok(board@, self.color, *king_position, upper) && castle_square(board@, *king_position, q, upper),
    {
        let mut none: Vec<Position> = Vec::new();
        let files = board.num_files();
        let kf = king_position.file.0;
        let kr = king_position.rank.0;
        if upper {
            if kf + 3 > files {
                return none;
            }
        } else {
            if kf < 4 {
                return none;
            }
        }
        let corner: usize = if upper { files } else { 1 };
        let rook = board.get_piece_at_position(&pos(kr, corner));
        let rook_ok = match rook {
            Some(p) => p.piece_type == PieceType::Rook && p.color == self.color && p.last_game_move.is_none(),
            None => false,
        };
        if !rook_ok {
            return none;
        }
        let mut f: usize = if upper { kf + 1 } else { 2 };
        let end: usize = if upper { files } else { kf };
        while f < end
            invariant
                board.wf(),
                none@ == Seq::<Position>::empty(),
                2 <= f,
                end <= board@.files(),
                end == (if upper { board@.files() } else { kf as int }),
                kf == king_position.f(),
                kr == king_position.r(),
                board@.in_bounds(king_position.r(), king_position.f()),
                forall|g: int| (if upper { kf < g < f } else { 1 < g < f }) ==> #[trigger] board@.at(kr as int, g) is None,
                upper ==> kf + 1 <= f,
            decreases end - f,
        {
            if board.get_piece_at_position(&pos(kr, f)).is_some() {
                proof {
                    assert(board@.at(king_position.r(), f as int) is Some);
                    assert(!castle_side_ok(board@, self.color, *king_position, upper));
                }
                return none;
            }
            f += 1;
        }
        let pass_file: usize = if upper { kf + 1 } else { kf - 1 };
        let land_file: usize = if upper { kf + 2 } else { kf - 2 };
        let pass_move = PlayerMove { from: *king_position, to: pos(kr, pass_file) };
        assert(pass_move == king_move(*king_position, pass_file as int));
        let mut passing = board.clone();
        passing.apply_move(&pass_move);
        if passing.is_king_in_check(&self.color) {
            return none;
        }
        let land_move = PlayerMove { from: *king_position, to: pos(kr, land_file) };
        assert(land_move == king_move(*king_position, land_file as int));
        let mut landing = board.clone();
        landing.apply_move(&land_move);
        if landing.is_king_in_check(&self.color) {
            return none;
        }
        proof {
            assert(castle_side_ok(board@, self.color, *king_position, upper));
        }
        let mut res: Vec<Position> = Vec::new();
        push_if(&mut res, true, pos(kr, corner));
        let mut g: usize = if upper { kf + 2 } else { 2 };
        let stop: usize = if upper { files } else { kf - 1 };
        while g < stop
            invariant
                g <= stop || stop < 2,
                stop == (if upper { files as int } else { kf - 1 }),
                files == board@.files(),
                kf == king_position.f(),
                kr == king_position.r(),
                castle_side_ok(board@, self.color, *king_position, upper),
                (if upper { kf + 2 <= g } else { 2 <= g }),
                forall|q: Position| #[trigger] res@.contains(q) <==> q == pos_at(kr as int, corner as int) || (q.r() == kr && (if upper { kf + 2 <= q.f() < g } else { 1 < q.f() < g })),
            decreases stop - g,
        {
            push_if(&mut res, true, pos(kr, g));
            g += 1;
        }
        proof {
            assert forall|q: Position| #[trigger] res@.contains(q) <==> castle_side_ok(board@, self.color, *king_position, upper) && castle_square(board@, *king_position, q, upper) by {
                if q == pos_at(kr as int, corner as int) {
                    assert(castle_square(board@, *king_position, q, upper));
                }
            }
        }
        res
    }

    /// The castling squares for this king on `king_position`; empty unless the
    /// king has never moved and is not in check.
    fn get_allowed_castling_positions(&self, board: &Board, king_position: &Position) -> (res: Vec<Position>)
        requires
            board.wf(),
            board@.in_bounds(king_position.r(), king_position.f()),
            board@.at(king_position.r(), king_position.f()) == Some(*self),
            board@.move_count < usize::MAX,
        ensures
            forall|q: Position| #[trigger] res@.contains(q) <==> castle_target(board@, *self, *king_position, q),
    {
        let mut res: Vec<Position> = Vec::new();
        if self.piece_type != PieceType::King || self.last_game_move.is_some() {
            return res;
        }
        if board.is_king_in_check(&self.color) {
            return res;
        }
        let lower = self.castling_side(board, king_position, false);
        let upper = self.castling_side(board, king_position, true);
        let mut i: usize = 0;
        while i < lower.len()
            invariant
                i <= lower@.len(),
                forall|q: Position| #[trigger] res@.contains(q) <==> exists|k: int| 0 <= k < i && lower@[k] == q,
            decreases lower@.len() - i,
        {
            push_if(&mut res, true, lower[i]);
            i += 1;
            proof {
                assert forall|q: Position| #[trigger] res@.contains(q) <==> exists|k: int| 0 <= k < i && lower@[k] == q by {
                    if q == lower@[i - 1] {
                        assert(0 <= i - 1 < i);
                    }
                }
            }
        }
        let mut j: usize = 0;
        while j < upper.len()
            invariant
                i == lower@.len(),
                j <= upper@.len(),
                forall|q: Position| #[trigger] res@.contains(q) <==> (exists|k: int| 0 <= k < i && lower@[k] == q) || (exists|k: int| 0 <= k < j && upper@[k] == q),
            decreases upper@.len() - j,
        {
            push_if(&mut res, true, upper[j]);
            j += 1;
            proof {
                assert forall|q: Position| #[trigger] res@.contains(q) <==> (exists|k: int| 0 <= k < i && lower@[k] == q) || (exists|k: int| 0 <= k < j && upper@[k] == q) by {
                    if q == upper@[j - 1] {
                        assert(0 <= j - 1 < j);
                    }
                }
            }
        }
        proof {
            assert forall|q: Position| #[trigger] res@.contains(q) <==> castle_target(board@, *self, *king_position, q) by {
                if lower@.contains(q) {
                    let k = choose|k: int| 0 <= k < lower@.len() && lower@[k] == q;
                }
                if upper@.contains(q) {
                    let k = choose|k: int| 0 <= k < upper@.len() && upper@[k] == q;
                }
            }
        }
        res
    }

    /// Every destination of this piece on `position`, castling included, ignoring
    /// whether its own king is left in check.
    pub fn possible_moves(&self, board: &Board, position: &Position) -> (res: Vec<Position>)
        requires
            board.wf(),
            board@.in_bounds(position.r(), position.f()),
            board@.at(position.r(), position.f()) == Some(*self),
            board@.move_count < usize::MAX,
        ensures
            forall|q: Position| #[trigger] res@.contains(q) <==> legal_target(board@, *self, *position, q),
    {
        let mut moves = self.base_moves(board, position);
        if self.piece_type == PieceType::King {
            let castling = self.get_allowed_castling_positions(board, position);
            let ghost base = moves@;
            let mut i: usize = 0;
            while i < castling.len()
                invariant
                    i <= castling@.len(),
                    forall|q: Position| #[trigger] moves@.contains(q) <==> base.contains(q) || exists|k: int| 0 <= k < i && castling@[k] == q,
                decreases castling@.len() - i,
            {
                push_if(&mut moves, true, castling[i]);
                i += 1;
                proof {
                    assert forall|q: Position| #[trigger] moves@.contains(q) <==> base.contains(q) || exists|k: int| 0 <= k < i && castling@[k] == q by {
                        if q == castling@[i - 1] {
                            assert(0 <= i - 1 < i);
                        }
                    }
                }
            }
            proof {
                assert forall|q: Position| #[trigger] moves@.contains(q) <==> legal_target(board@, *self, *position, q) by {
                    if castling@.contains(q) {
                        let k = choose|k: int| 0 <= k < castling@.len() && castling@[k] == q;
                    }
                }
            }
        }
        moves
    }
}

/// Checks move `player_move` for `player_color`: it must start on one of the
/// player's pieces, end on the board, be a move of that piece, and not leave the
/// player's own king in check.
pub fn validate_move(board: &Board, player_move: &PlayerMove, player_color: &Color) -> (r: Result<(), MoveError>)
    requires
        board.wf(),
        board@.move_count < usize::MAX,
    ensures
        r == validation(board@, *player_move, *player_color),
{
    let piece = match get_own_piece_from_position(board, &player_move.from, player_color) {
        Some(p) => p,
        None => {
            return Err(MoveError::NotYourPiece);
        },
    };
    if !board.is_valid_board_position(&player_move.to) {
        return Err(MoveError::OutOfBounds);
    }
    let moves = piece.possible_moves(board, &player_move.from);
    if !contains_position(&moves, &player_move.to) {
        return Err(MoveError::IllegalForPiece);
    }
    if does_move_create_self_check(board, player_move, player_color) {
        return Err(MoveError::SelfCheck);
    }
    Ok(())
}

fn get_own_piece_from_position(board: &Board, position: &Position, player_color: &Color) -> (r: Option<Piece>)
    requires
        board.wf(),
    ensures
        r is Some <==> own_piece_at(board@, *position, *player_color),
        r is Some ==> r == board@.at(position.r(), position.f()),
{
    match board.get_piece_at_position(position) {
        Some(piece) => {
            if piece.color == *player_color {
                Some(piece)
            } else {
                None
            }
        },
        None => None,
    }
}

fn does_move_create_self_check(board: &Board, player_move: &PlayerMove, player_color: &Color) -> (r: bool)
    requires
        board.wf(),
        applicable(board@, *player_move),
        board@.move_count < usize::MAX,
    ensures
        r == in_check(apply_view(board@, *player_move), *player_color),
{
    let mut hypothetical_board = board.clone();
    hypothetical_board.apply_move(player_move);
    hypothetical_board.is_king_in_check(player_color)
}

/// A move that `validate_move` accepts never leaves the mover's own king in check.
pub proof fn lemma_validated_move_is_safe(b: BoardView, m: PlayerMove, side: Color)
    requires
        b.wf(),
        validation(b, m, side) is Ok,
    ensures
        !in_check(apply_view(b, m), side),
{
}


/// Moving the piece of color `c` on rank `r`, file `f` to `q` is one of its
/// moves and leaves its king out of check.
pub open spec fn escape_at(b: BoardView, r: int, f: int, c: Color, q: Position) -> bool {
    &&& b.in_bounds(r, f)
    &&& b.at(r, f) is Some
    &&& b.at(r, f)->Some_0.color == c
    &&& base_move(b, b.at(r, f)->Some_0, pos_at(r, f), q)
    &&& !in_check(apply_view(b, PlayerMove { from: pos_at(r, f), to: q }), c)
}

/// Side `c` has a move that leaves its king out of check (castling aside, which
/// is never open to a king in check).
pub open spec fn has_escape(b: BoardView, c: Color) -> bool {
    exists|r: int, f: int, q: Position| #[trigger] escape_at(b, r, f, c, q)
}

impl Board {
    /// Whether side `color` has a move after which its king is not in check.
    pub fn can_escape_check(&self, color: &Color) -> (res: bool)
        requires
            self.wf(),
            self@.move_count < usize::MAX,
        ensures
            res == has_escape(self@, *color),
    {
        let ranks = self.num_ranks();
        let files = self.num_files();
        let mut i: usize = 0;
        while i < ranks
            invariant
                self.wf(),
                self@.move_count < usize::MAX,
                ranks == self@.ranks(),
                files == self@.files(),
                i <= ranks,
                forall|r: int, f: int, q: Position| self@.in_bounds(r, f) && scanned(self@, r, f, i as int, 0) ==> !#[trigger] escape_at(self@, r, f, *color, q),
            decreases ranks - i,
        {
            let mut j: usize = 0;
            while j < files
                invariant
                    self.wf(),
                    self@.move_count < usize::MAX,
                    ranks == self@.ranks(),
                    files == self@.files(),
                    i < ranks,
                    j <= files,
                    forall|r: int, f: int, q: Position| self@.in_bounds(r, f) && scanned(self@, r, f, i as int, j as int) ==> !#[trigger] escape_at(self@, r, f, *color, q),
                decreases files - j,
            {
                let here = pos(ranks - i, j + 1);
                let ghost r0 = (ranks - i) as int;
                let ghost f0 = (j + 1) as int;
                match self.get_piece_at_position(&here) {
                    Some(p) => {
                        if p.color == *color {
                            let moves = p.base_moves(self, &here);
                            let mut k: usize = 0;
                            while k < moves.len()
                                invariant
                                    self.wf(),
                                    self@.move_count < usize::MAX,
                                    here == pos_at(r0, f0),
                                    self@.in_bounds(r0, f0),
                                    self@.at(r0, f0) == Some(p),
                                    p.color == *color,
                                    k <= moves@.len(),
                                    forall|q: Position| #[trigger] moves@.contains(q) <==> base_move(self@, p, here, q),
                                    forall|kk: int| 0 <= kk < k ==> in_check(apply_view(self@, PlayerMove { from: here, to: #[trigger] moves@[kk] }), *color),
                                decreases moves@.len() - k,
                            {
                                let m = PlayerMove { from: here, to: moves[k] };
                                proof {
                                    assert(moves@.contains(moves@[k as int]));
                                    lemma_base_move_in_bounds(self@, p, here, moves@[k as int]);
                                }
                                let mut hypothetical = self.clone();
                                hypothetical.apply_move(&m);
                                if !hypothetical.is_king_in_check(color) {
                                    proof {
                                        assert(escape_at(self@, r0, f0, *color, moves@[k as int]));
                                    }
                                    return true;
                                }
                                k += 1;
                            }
                            proof {
                                assert forall|q: Position| !#[trigger] escape_at(self@, r0, f0, *color, q) by {
                                    if base_move(self@, p, here, q) {
                                        assert(moves@.contains(q));
                                        let kk = choose|kk: int| 0 <= kk < moves@.len() && moves@[kk] == q;
                                        assert(in_check(apply_view(self@, PlayerMove { from: here, to: moves@[kk] }), *color));
                                    }
                                }
                            }
                        }
                    },
                    None => {},
                }
                j += 1;
            }
            i += 1;
        }
        proof {
            assert forall|r: int, f: int, q: Position| !#[trigger] escape_at(self@, r, f, *color, q) by {
                if self@.in_bounds(r, f) {
                    assert(scanned(self@, r, f, i as int, 0));
                }
            }
        }
        false
    }
}


pub open spec fn color_matches(color: Option<Color>, p: Piece) -> bool {
    match color {
        Some(c) => p.color == c,
        None => true,
    }
}

impl Board {
    /// Every piece with its position, from the top rank down and left to right,
    /// only those of `color` when it is given.
    pub fn get_all_pieces(&self, color: Option<Color>) -> (r: Vec<(Piece, Position)>)
        requires
            self.wf(),
        ensures
            forall|i: int|
                0 <= i < r@.len() ==> {
                    let (p, q) = #[trigger] r@[i];
                    &&& self@.in_bounds(q.r(), q.f())
                    &&& self@.at(q.r(), q.f()) == Some(p)
                    &&& color_matches(color, p)
                },
            forall|rr: int, ff: int|
                self@.in_bounds(rr, ff) && #[trigger] self@.at(rr, ff) is Some && color_matches(color, self@.at(rr, ff)->Some_0)
                    ==> exists|i: int| 0 <= i < r@.len() && r@[i].1 == pos_at(rr, ff),
    {
        let ranks = self.num_ranks();
        let files = self.num_files();
        let mut out: Vec<(Piece, Position)> = Vec::new();
        let mut i: usize = 0;
        while i < ranks
            invariant
                self.wf(),
                ranks == self@.ranks(),
                files == self@.files(),
                i <= ranks,
                forall|k: int|
                    0 <= k < out@.len() ==> {
                        let (p, q) = #[trigger] out@[k];
                        &&& self@.in_bounds(q.r(), q.f())
                        &&& self@.at(q.r(), q.f()) == Some(p)
                        &&& color_matches(color, p)
                    },
                forall|rr: int, ff: int|
                    self@.in_bounds(rr, ff) && scanned(self@, rr, ff, i as int, 0) && #[trigger] self@.at(rr, ff) is Some
                        && color_matches(color, self@.at(rr, ff)->Some_0) ==> exists|k: int| 0 <= k < out@.len() && out@[k].1 == pos_at(rr, ff),
            decreases ranks - i,
        {
            let mut j: usize = 0;
            while j < files
                invariant
                    self.wf(),
                    ranks == self@.ranks(),
                    files == self@.files(),
                    i < ranks,
                    j <= files,
                    forall|k: int|
                        0 <= k < out@.len() ==> {
                            let (p, q) = #[trigger] out@[k];
                            &&& self@.in_bounds(q.r(), q.f())
                            &&& self@.at(q.r(), q.f()) == Some(p)
                            &&& color_matches(color, p)
                        },
                    forall|rr: int, ff: int|
                        self@.in_bounds(rr, ff) && scanned(self@, rr, ff, i as int, j as int) && #[trigger] self@.at(rr, ff) is Some
                            && color_matches(color, self@.at(rr, ff)->Some_0) ==> exists|k: int|
                            0 <= k < out@.len() && out@[k].1 == pos_at(rr, ff),
                decreases files - j,
            {
                let here = pos(ranks - i, j + 1);
                let ghost before = out@;
                match self.get_piece_at_position(&here) {
                    Some(p) => {
                        let wanted = match color {
                            Some(c) => p.color == c,
                            None => true,
                        };
                        if wanted {
                            out.push((p, here));
                            proof {
                                assert(out@[out@.len() - 1].1 == pos_at((ranks - i) as int, (j + 1) as int));
                                assert forall|rr: int, ff: int|
                                    self@.in_bounds(rr, ff) && scanned(self@, rr, ff, i as int, j + 1) && #[trigger] self@.at(rr, ff) is Some
                                        && color_matches(color, self@.at(rr, ff)->Some_0) implies exists|k: int|
                                        0 <= k < out@.len() && out@[k].1 == pos_at(rr, ff) by {
                                    if scanned(self@, rr, ff, i as int, j as int) {
                                        let k = choose|k: int| 0 <= k < before.len() && before[k].1 == pos_at(rr, ff);
                                        assert(out@[k] == before[k]);
                                    } else {
                                        assert(out@[out@.len() - 1].1 == pos_at(rr, ff));
                                    }
                                }
                            }
                        }
                    },
                    None => {},
                }
                j += 1;
            }
            i += 1;
        }
        proof {
            assert forall|rr: int, ff: int|
                self@.in_bounds(rr, ff) && #[trigger] self@.at(rr, ff) is Some && color_matches(color, self@.at(rr, ff)->Some_0)
                    implies exists|k: int| 0 <= k < out@.len() && out@[k].1 == pos_at(rr, ff) by {
                assert(scanned(self@, rr, ff, i as int, 0));
            }
        }
        out
    }
}


/// A pawn may step diagonally onto an empty square only in the ply right after
/// the pawn beside it moved: that pawn's stamp equals the board's move count.
pub proof fn lemma_en_passant_window(b: BoardView, p: Piece, from: Position, to: Position)
    requires
        b.wf(),
        p.piece_type == PieceType::Pawn,
        base_move(b, p, from, to),
        to.f() != from.f(),
        b.at(to.r(), to.f()) is None,
    ensures
        b.at(from.r(), to.f()) is Some,
        b.at(from.r(), to.f())->Some_0.piece_type == PieceType::Pawn,
        b.at(from.r(), to.f())->Some_0.color == p.color.opposite(),
        b.at(from.r(), to.f())->Some_0.last_game_move == Some(b.move_count as usize),
{
}

/// A king move of more than one file (a castling move) is open only to a king
/// that has never moved, toward a corner rook that has never moved.
pub proof fn lemma_castling_needs_unmoved_pieces(b: BoardView, p: Piece, from: Position, to: Position)
    requires
        b.wf(),
        p.piece_type == PieceType::King,
        legal_target(b, p, from, to),
        crate::movegen::abs(to.f() - from.f()) > 1,
    ensures
        p.last_game_move is None,
        unmoved_rook(b, from.r(), if to.f() > from.f() { b.files() } else { 1 }, p.color),
{
}

} // verus!
