use vstd::prelude::*;

use crate::board::{pos, Board, BoardView, File, Position, Rank};
use crate::piece::{Color, Piece, PieceType};

verus! {

pub open spec fn abs(x: int) -> int {
    if x < 0 {
        -x
    } else {
        x
    }
}

/// The position at rank `r`, file `f`.
pub open spec fn pos_at(r: int, f: int) -> Position {
    Position { rank: Rank(r as usize), file: File(f as usize) }
}

/// A square a piece of color `c` may step onto: on the board and not held by its own side.
pub open spec fn step_ok(b: BoardView, c: Color, r: int, f: int) -> bool {
    b.in_bounds(r, f) && (b.at(r, f) is None || b.at(r, f)->Some_0.color != c)
}

pub open spec fn king_step(dr: int, df: int) -> bool {
    abs(dr) <= 1 && abs(df) <= 1 && !(dr == 0 && df == 0)
}

pub open spec fn knight_jump(dr: int, df: int) -> bool {
    (abs(dr) == 1 && abs(df) == 2) || (abs(dr) == 2 && abs(df) == 1)
}

/// Coordinate `x` moved `k` steps in direction `d` (one of -1, 0, 1).
pub open spec fn ray(x: int, d: int, k: int) -> int {
    if d > 0 {
        x + k
    } else if d < 0 {
        x - k
    } else {
        x
    }
}

pub open spec fn on_ray(from: Position, q: Position, dr: int, df: int, k: int) -> bool {
    q.r() == ray(from.r(), dr, k) && q.f() == ray(from.f(), df, k)
}

/// The `k`-th square of the ray is reached: every square before it is on the board and empty.
pub open spec fn ray_clear(b: BoardView, from: Position, dr: int, df: int, k: int) -> bool {
    forall|j: int|
        1 <= j < k ==> b.in_bounds(ray(from.r(), dr, j), ray(from.f(), df, j)) && b.at(
            ray(from.r(), dr, j),
            ray(from.f(), df, j),
        ) is None
}

/// A sliding piece of color `c` on `from` reaches `to` along direction `(dr, df)`:
/// every square before `to` is empty, and `to` is empty or holds an opposing piece.
pub open spec fn slides_to(b: BoardView, c: Color, from: Position, to: Position, dr: int, df: int) -> bool {
    exists|k: int|
        k >= 1 && #[trigger] on_ray(from, to, dr, df, k) && ray_clear(b, from, dr, df, k) && step_ok(
            b,
            c,
            to.r(),
            to.f(),
        )
}

/// The squares a sliding piece of color `c` on `from` reaches along `(dr, df)`
/// from step `k` on, in order: the empty squares, then the first occupied one
/// when it holds an opposing piece; nothing past the first blocker or the edge.
pub open spec fn ray_squares(b: BoardView, c: Color, from: Position, dr: int, df: int, k: int) -> Seq<Position>
    decreases 13 - k,
{
    if k < 1 || k >= 13 {
        seq![]
    } else {
        let r = ray(from.r(), dr, k);
        let f = ray(from.f(), df, k);
        if !b.in_bounds(r, f) {
            seq![]
        } else if b.at(r, f) is None {
            seq![pos_at(r, f)] + ray_squares(b, c, from, dr, df, k + 1)
        } else if b.at(r, f)->Some_0.color != c {
            seq![pos_at(r, f)]
        } else {
            seq![]
        }
    }
}

/// The squares along the first `i` directions of `dirs`, direction by direction.
pub open spec fn rays_squares(b: BoardView, c: Color, from: Position, dirs: Seq<(isize, isize)>, i: int) -> Seq<Position>
    decreases i,
{
    if i <= 0 {
        seq![]
    } else {
        rays_squares(b, c, from, dirs, i - 1) + ray_squares(b, c, from, dirs[i - 1].0 as int, dirs[i - 1].1 as int, 1)
    }
}

pub open spec fn unit_dir(d: (isize, isize)) -> bool {
    -1 <= d.0 <= 1 && -1 <= d.1 <= 1 && !(d.0 == 0 && d.1 == 0)
}

pub open spec fn slides_any(b: BoardView, c: Color, from: Position, to: Position, dirs: Seq<(isize, isize)>) -> bool {
    exists|i: int| 0 <= i < dirs.len() && #[trigger] slides_to(b, c, from, to, dirs[i].0 as int, dirs[i].1 as int)
}

pub open spec fn rook_dirs() -> Seq<(isize, isize)> {
    seq![(-1isize, 0isize), (1isize, 0isize), (0isize, -1isize), (0isize, 1isize)]
}

pub open spec fn bishop_dirs() -> Seq<(isize, isize)> {
    seq![(-1isize, -1isize), (-1isize, 1isize), (1isize, -1isize), (1isize, 1isize)]
}

pub open spec fn queen_dirs() -> Seq<(isize, isize)> {
    rook_dirs() + bishop_dirs()
}

/// +1 rank for White, -1 for Black.
pub open spec fn forward(c: Color) -> int {
    if c == Color::White {
        1
    } else {
        -1
    }
}

/// The rank from which a pawn of color `c` may capture en passant: three ranks
/// from the far edge for White, the fourth rank for Black.
pub open spec fn en_passant_rank(b: BoardView, c: Color) -> int {
    if c == Color::White {
        b.ranks() - 3
    } else {
        4
    }
}

/// A diagonal step onto the empty square behind an opposing pawn that moved on
/// the board's latest move.
pub open spec fn en_passant(b: BoardView, p: Piece, from: Position, to: Position) -> bool {
    &&& to.r() - from.r() == forward(p.color)
    &&& abs(to.f() - from.f()) == 1
    &&& from.r() == en_passant_rank(b, p.color)
    &&& b.in_bounds(from.r(), to.f())
    &&& b.in_bounds(to.r(), to.f())
    &&& b.at(to.r(), to.f()) is None
    &&& b.at(from.r(), to.f()) is Some
    &&& b.at(from.r(), to.f())->Some_0.piece_type == PieceType::Pawn
    &&& b.at(from.r(), to.f())->Some_0.color == p.color.opposite()
    &&& b.at(from.r(), to.f())->Some_0.last_game_move == Some(b.move_count as usize)
}

pub open spec fn pawn_move(b: BoardView, p: Piece, from: Position, to: Position) -> bool {
    let d = forward(p.color);
    let dr = to.r() - from.r();
    let df = to.f() - from.f();
    ||| (dr == d && df == 0 && b.in_bounds(to.r(), to.f()) && b.at(to.r(), to.f()) is None)
    ||| (dr == 2 * d && df == 0 && p.last_game_move is None && b.in_bounds(from.r() + d, from.f())
        && b.at(from.r() + d, from.f()) is None && b.in_bounds(to.r(), to.f()) && b.at(
        to.r(),
        to.f(),
    ) is None)
    ||| (dr == d && abs(df) == 1 && b.in_bounds(to.r(), to.f()) && b.at(to.r(), to.f()) is Some
        && b.at(to.r(), to.f())->Some_0.color != p.color)
    ||| en_passant(b, p, from, to)
}

/// The squares piece `p` on `from` attacks or may move to, castling aside.
pub open spec fn base_move(b: BoardView, p: Piece, from: Position, to: Position) -> bool {
    let dr = to.r() - from.r();
    let df = to.f() - from.f();
    match p.piece_type {
        PieceType::King => king_step(dr, df) && step_ok(b, p.color, to.r(), to.f()),
        PieceType::Knight => knight_jump(dr, df) && step_ok(b, p.color, to.r(), to.f()),
        PieceType::Bishop => slides_any(b, p.color, from, to, bishop_dirs()),
        PieceType::Rook => slides_any(b, p.color, from, to, rook_dirs()),
        PieceType::Queen => slides_any(b, p.color, from, to, queen_dirs()),
        PieceType::Pawn => pawn_move(b, p, from, to),
    }
}

pub proof fn lemma_push_contains(s: Seq<Position>, x: Position)
    ensures
        forall|q: Position| #[trigger] s.push(x).contains(q) <==> s.contains(q) || q == x,
{
    assert forall|q: Position| #[trigger] s.push(x).contains(q) <==> s.contains(q) || q == x by {
        if s.push(x).contains(q) {
            let i = choose|i: int| 0 <= i < s.push(x).len() && s.push(x)[i] == q;
            if i < s.len() {
                assert(s[i] == q);
            }
        }
        if s.contains(q) {
            let i = choose|i: int| 0 <= i < s.len() && s[i] == q;
            assert(s.push(x)[i] == q);
        }
        if q == x {
            assert(s.push(x)[s.len() as int] == q);
        }
    }
}

/// Appends `(r, f)` to `moves` when `piece` may step there.
fn push_if_step_ok(board: &Board, piece: &Piece, r: isize, f: isize, moves: &mut Vec<Position>)
    requires
        board.wf(),
        -2 <= r <= 15,
        -2 <= f <= 15,
    ensures
        forall|q: Position|
            #[trigger] final(moves)@.contains(q) <==> old(moves)@.contains(q) || (q == pos_at(
                r as int,
                f as int,
            ) && step_ok(board@, piece.color, r as int, f as int)),
{
    proof {
        lemma_push_contains(moves@, pos_at(r as int, f as int));
    }
    if r >= 1 && f >= 1 {
        let p = pos(r as usize, f as usize);
        if board.is_valid_position_for_king_or_knight_in_game(&p, piece) {
            moves.push(p);
        }
    }
}

impl Board {
    /// Whether a king or knight like `piece` may land on `position`: on the board
    /// and not held by a piece of its own color.
    pub fn is_valid_position_for_king_or_knight_in_game(&self, position: &Position, piece: &Piece) -> (r: bool)
        requires
            self.wf(),
        ensures
            r == step_ok(self@, piece.color, position.r(), position.f()),
    {
        if !self.is_valid_board_position(position) {
            return false;
        }
        match self.get_piece_at_position(position) {
            Some(other) => other.color != piece.color,
            None => true,
        }
    }

    /// Appends the squares reached from `position` along `(dr, df)`.
    fn slide_ray(&self, position: &Position, color: Color, dr: isize, df: isize, moves: &mut Vec<Position>)
        requires
            self.wf(),
            self@.in_bounds(position.r(), position.f()),
            unit_dir((dr, df)),
        ensures
            forall|q: Position|
                #[trigger] final(moves)@.contains(q) <==> old(moves)@.contains(q) || slides_to(
                    self@,
                    color,
                    *position,
                    q,
                    dr as int,
                    df as int,
                ),
            final(moves)@ == old(moves)@ + ray_squares(self@, color, *position, dr as int, df as int, 1),
    {
        let b = Ghost(self@);
        let from = Ghost(*position);
        let mut k: usize = 1;
        let mut r: isize = position.rank.0 as isize + dr;
        let mut f: isize = position.file.0 as isize + df;
        while k <= 13
            invariant
                self.wf(),
                b@ == self@,
                from@ == *position,
                self@.in_bounds(position.r(), position.f()),
                unit_dir((dr, df)),
                1 <= k <= 13,
                r == ray(position.r(), dr as int, k as int),
                f == ray(position.f(), df as int, k as int),
                ray_clear(self@, *position, dr as int, df as int, k as int),
                old(moves)@ + ray_squares(self@, color, *position, dr as int, df as int, 1) == moves@ + ray_squares(
                    self@,
                    color,
                    *position,
                    dr as int,
                    df as int,
                    k as int,
                ),
                forall|q: Position|
                    #[trigger] moves@.contains(q) <==> old(moves)@.contains(q) || exists|j: int|
                        1 <= j < k && #[trigger] on_ray(from@, q, dr as int, df as int, j),
            decreases 14 - k,
        {
            let ghost prev = moves@;
            if r < 1 || f < 1 || r as usize > self.num_ranks() || f as usize > self.num_files() {
                proof {
                    assert(ray_squares(self@, color, *position, dr as int, df as int, k as int) =~= seq![]);
                    assert(moves@ + seq![] =~= moves@);
                    assert forall|q: Position|
                        #[trigger] moves@.contains(q) <==> old(moves)@.contains(q) || slides_to(
                            b@,
                            color,
                            from@,
                            q,
                            dr as int,
                            df as int,
                        ) by {
                        if slides_to(b@, color, from@, q, dr as int, df as int) {
                            let kk = choose|kk: int|
                                kk >= 1 && #[trigger] on_ray(from@, q, dr as int, df as int, kk)
                                    && ray_clear(b@, from@, dr as int, df as int, kk) && step_ok(
                                    b@,
                                    color,
                                    q.r(),
                                    q.f(),
                                );
                            if kk > k {
                                assert(b@.in_bounds(
                                    ray(from@.r(), dr as int, k as int),
                                    ray(from@.f(), df as int, k as int),
                                ));
                            }
                            assert(kk < k);
                        }
                        if exists|j: int| 1 <= j < k && #[trigger] on_ray(from@, q, dr as int, df as int, j) {
                            let j = choose|j: int| 1 <= j < k && #[trigger] on_ray(from@, q, dr as int, df as int, j);
                            assert(ray_clear(b@, from@, dr as int, df as int, j));
                            assert(step_ok(b@, color, q.r(), q.f())) by {
                                assert(b@.in_bounds(q.r(), q.f()));
                            }
                        }
                    }
                }
                return;
            }
            let p = pos(r as usize, f as usize);
            proof {
                lemma_push_contains(moves@, p);
                assert(p == pos_at(r as int, f as int));
            }
            match self.get_piece_at_position(&p) {
                Some(other) => {
                    if other.color != color {
                        moves.push(p);
                    }
                    proof {
                        if k < 13 {
                            if other.color != color {
                                assert(ray_squares(self@, color, *position, dr as int, df as int, k as int) =~= seq![p]);
                                assert(prev + seq![p] =~= prev.push(p));
                            } else {
                                assert(ray_squares(self@, color, *position, dr as int, df as int, k as int) =~= seq![]);
                                assert(prev + seq![] =~= prev);
                            }
                        }
                        assert forall|q: Position|
                            #[trigger] moves@.contains(q) <==> old(moves)@.contains(q) || slides_to(
                                b@,
                                color,
                                from@,
                                q,
                                dr as int,
                                df as int,
                            ) by {
                            if slides_to(b@, color, from@, q, dr as int, df as int) {
                                let kk = choose|kk: int|
                                    kk >= 1 && #[trigger] on_ray(from@, q, dr as int, df as int, kk)
                                        && ray_clear(b@, from@, dr as int, df as int, kk) && step_ok(
                                        b@,
                                        color,
                                        q.r(),
                                        q.f(),
                                    );
                                assert(kk <= k);
                                if kk < k {
                                    assert(prev.contains(q));
                                } else {
                                    assert(q == p);
                                }
                            }
                            if exists|j: int| 1 <= j < k && #[trigger] on_ray(from@, q, dr as int, df as int, j) {
                                let j = choose|j: int| 1 <= j < k && #[trigger] on_ray(from@, q, dr as int, df as int, j);
                                assert(ray_clear(b@, from@, dr as int, df as int, j));
                                assert(b@.in_bounds(q.r(), q.f()));
                            }
                            if q == p && other.color != color {
                                assert(on_ray(from@, q, dr as int, df as int, k as int));
                            }
                        }
                    }
                    return;
                },
                None => {
                    moves.push(p);
                    proof {
                        if k < 13 {
                            assert(ray_squares(self@, color, *position, dr as int, df as int, k as int) == seq![p] + ray_squares(
                                self@,
                                color,
                                *position,
                                dr as int,
                                df as int,
                                k + 1,
                            ));
                            assert(prev + (seq![p] + ray_squares(self@, color, *position, dr as int, df as int, k + 1))
                                =~= prev.push(p) + ray_squares(self@, color, *position, dr as int, df as int, k + 1));
                        }
                        assert(on_ray(from@, p, dr as int, df as int, k as int));
                        assert forall|q: Position|
                            #[trigger] moves@.contains(q) <==> old(moves)@.contains(q) || exists|j: int|
                                1 <= j < k + 1 && #[trigger] on_ray(from@, q, dr as int, df as int, j) by {
                            if exists|j: int| 1 <= j < k + 1 && #[trigger] on_ray(from@, q, dr as int, df as int, j) {
                                let j = choose|j: int| 1 <= j < k + 1 && #[trigger] on_ray(from@, q, dr as int, df as int, j);
                                if j == k {
                                    assert(q == p);
                                }
                            }
                        }
                        assert(ray_clear(self@, *position, dr as int, df as int, k + 1));
                    }
                    if k == 13 {
                        proof {
                            assert(false);
                        }
                        return;
                    }
                    k = k + 1;
                    r = r + dr;
                    f = f + df;
                },
            }
        }
        proof {
            assert(false);
        }
    }
}


/// Appends `p` to `moves` when `cond` holds.
pub(crate) fn push_if(moves: &mut Vec<Position>, cond: bool, p: Position)
    ensures
        forall|q: Position|
            #[trigger] final(moves)@.contains(q) <==> old(moves)@.contains(q) || (cond && q == p),
{
    proof {
        lemma_push_contains(moves@, p);
    }
    if cond {
        moves.push(p);
    }
}

impl Board {
    /// What stands on rank `r`, file `f`: `None` off the board, else the square's content.
    pub fn square_at(&self, r: isize, f: isize) -> (res: Option<Option<Piece>>)
        requires
            self.wf(),
        ensures
            res == (if self@.in_bounds(r as int, f as int) {
                Some(self@.at(r as int, f as int))
            } else {
                None
            }),
    {
        if r < 1 || f < 1 || r as usize > self.num_ranks() || f as usize > self.num_files() {
            None
        } else {
            Some(self.get_piece_at_position(&pos(r as usize, f as usize)))
        }
    }

    /// The squares a bishop, rook or queen of `color` on `position` reaches along
    /// each of `offsets`: it slides until blocked, taking an opposing blocker's
    /// square. Rays come in the order of `offsets`, each from the nearest square out.
    pub fn get_valid_positions_for_bishop_or_rook_or_queen(
        &self,
        position: &Position,
        color: &Color,
        offsets: &[(isize, isize)],
    ) -> (res: Vec<Position>)
        requires
            self.wf(),
            self@.in_bounds(position.r(), position.f()),
            forall|i: int| 0 <= i < offsets@.len() ==> unit_dir(#[trigger] offsets@[i]),
        ensures
            forall|q: Position| #[trigger] res@.contains(q) <==> slides_any(self@, *color, *position, q, offsets@),
            res@ == rays_squares(self@, *color, *position, offsets@, offsets@.len() as int),
    {
        let mut moves: Vec<Position> = Vec::new();
        let mut i: usize = 0;
        while i < offsets.len()
            invariant
                self.wf(),
                self@.in_bounds(position.r(), position.f()),
                forall|i: int| 0 <= i < offsets@.len() ==> unit_dir(#[trigger] offsets@[i]),
                i <= offsets@.len(),
                moves@ == rays_squares(self@, *color, *position, offsets@, i as int),
                forall|q: Position|
                    #[trigger] moves@.contains(q) <==> exists|j: int|
                        0 <= j < i && #[trigger] slides_to(self@, *color, *position, q, offsets@[j].0 as int, offsets@[j].1 as int),
            decreases offsets@.len() - i,
        {
            let (dr, df) = offsets[i];
            proof {
                assert(unit_dir(offsets@[i as int]));
            }
            self.slide_ray(position, *color, dr, df, &mut moves);
            i += 1;
            proof {
                assert forall|q: Position|
                    #[trigger] moves@.contains(q) <==> exists|j: int|
                        0 <= j < i && #[trigger] slides_to(self@, *color, *position, q, offsets@[j].0 as int, offsets@[j].1 as int) by {
                    if slides_to(self@, *color, *position, q, offsets@[i - 1].0 as int, offsets@[i - 1].1 as int) {
                        assert(0 <= i - 1 < i);
                    }
                }
            }
        }
        moves
    }
}

impl Piece {
    /// Pawn moves: one step forward onto an empty square, two from an unmoved
    /// pawn through empty squares, a diagonal capture, or an en-passant capture.
    fn pawn_moves(&self, board: &Board, position: &Position) -> (res: Vec<Position>)
        requires
            board.wf(),
            board@.in_bounds(position.r(), position.f()),
        ensures
            forall|q: Position| #[trigger] res@.contains(q) <==> pawn_move(board@, *self, *position, q),
    {
        let b = Ghost(board@);
        let r = position.rank.0 as isize;
        let f = position.file.0 as isize;
        let d: isize = match self.color {
            Color::White => 1,
            Color::Black => -1,
        };
        let mut moves: Vec<Position> = Vec::new();
        let one = board.square_at(r + d, f);
        let one_ok = match one {
            Some(None) => true,
            _ => false,
        };
        if one_ok {
            push_if(&mut moves, true, pos((r + d) as usize, f as usize));
        }
        let ghost m1 = moves@;
        let two = board.square_at(r + 2 * d, f);
        let two_ok = one_ok && self.last_game_move.is_none() && match two {
            Some(None) => true,
            _ => false,
        };
        if two_ok {
            push_if(&mut moves, true, pos((r + 2 * d) as usize, f as usize));
        }
        let ghost m2 = moves@;
        let left = board.square_at(r + d, f - 1);
        let left_ok = match left {
            Some(Some(t)) => t.color != self.color,
            _ => false,
        };
        if left_ok {
            push_if(&mut moves, true, pos((r + d) as usize, (f - 1) as usize));
        }
        let right = board.square_at(r + d, f + 1);
        let right_ok = match right {
            Some(Some(t)) => t.color != self.color,
            _ => false,
        };
        if right_ok {
            push_if(&mut moves, true, pos((r + d) as usize, (f + 1) as usize));
        }
        let ep_rank: isize = match self.color {
            Color::White => board.num_ranks() as isize - 3,
            Color::Black => 4,
        };
        let mc = board.move_count;
        let opp = self.color.opponent_color();
        let mut ep_left = false;
        let mut ep_right = false;
        if r == ep_rank {
            ep_left = match board.square_at(r, f - 1) {
                Some(Some(t)) => t.piece_type == PieceType::Pawn && t.color == opp
                    && t.last_game_move == Some(mc),
                _ => false,
            } && match board.square_at(r + d, f - 1) {
                Some(None) => true,
                _ => false,
            };
            if ep_left {
                push_if(&mut moves, true, pos((r + d) as usize, (f - 1) as usize));
            }
            ep_right = match board.square_at(r, f + 1) {
                Some(Some(t)) => t.piece_type == PieceType::Pawn && t.color == opp
                    && t.last_game_move == Some(mc),
                _ => false,
            } && match board.square_at(r + d, f + 1) {
                Some(None) => true,
                _ => false,
            };
            if ep_right {
                push_if(&mut moves, true, pos((r + d) as usize, (f + 1) as usize));
            }
        }
        proof {
            assert forall|q: Position| #[trigger] moves@.contains(q) <==> pawn_move(b@, *self, *position, q) by {
                if en_passant(b@, *self, *position, q) {
                    if q.f() < position.f() {
                        assert(ep_left);
                    } else {
                        assert(ep_right);
                    }
                }
            }
        }
        moves
    }

    /// King steps: the eight neighbours that are on the board and not held by its own side.
    fn king_steps(&self, board: &Board, position: &Position) -> (res: Vec<Position>)
        requires
            board.wf(),
            board@.in_bounds(position.r(), position.f()),
        ensures
            forall|q: Position|
                #[trigger] res@.contains(q) <==> king_step(q.r() - position.r(), q.f() - position.f())
                    && step_ok(board@, self.color, q.r(), q.f()),
    {
        let r = position.rank.0 as isize;
        let f = position.file.0 as isize;
        let mut moves: Vec<Position> = Vec::new();
        push_if_step_ok(board, self, r - 1, f - 1, &mut moves);
        push_if_step_ok(board, self, r - 1, f, &mut moves);
        push_if_step_ok(board, self, r - 1, f + 1, &mut moves);
        push_if_step_ok(board, self, r, f - 1, &mut moves);
        push_if_step_ok(board, self, r, f + 1, &mut moves);
        push_if_step_ok(board, self, r + 1, f - 1, &mut moves);
        push_if_step_ok(board, self, r + 1, f, &mut moves);
        push_if_step_ok(board, self, r + 1, f + 1, &mut moves);
        moves
    }

    /// Knight jumps: the eight L-shaped targets on the board not held by its own side.
    fn knight_jumps(&self, board: &Board, position: &Position) -> (res: Vec<Position>)
        requires
            board.wf(),
            board@.in_bounds(position.r(), position.f()),
        ensures
            forall|q: Position|
                #[trigger] res@.contains(q) <==> knight_jump(q.r() - position.r(), q.f() - position.f())
                    && step_ok(board@, self.color, q.r(), q.f()),
    {
        let r = position.rank.0 as isize;
        let f = position.file.0 as isize;
        let mut moves: Vec<Position> = Vec::new();
        push_if_step_ok(board, self, r - 2, f - 1, &mut moves);
        push_if_step_ok(board, self, r - 2, f + 1, &mut moves);
        push_if_step_ok(board, self, r - 1, f - 2, &mut moves);
        push_if_step_ok(board, self, r - 1, f + 2, &mut moves);
        push_if_step_ok(board, self, r + 1, f - 2, &mut moves);
        push_if_step_ok(board, self, r + 1, f + 2, &mut moves);
        push_if_step_ok(board, self, r + 2, f - 1, &mut moves);
        push_if_step_ok(board, self, r + 2, f + 1, &mut moves);
        moves
    }

    /// The squares this piece on `position` attacks or may move to, castling aside.
    /// Check detection uses this set, so it never looks at castling.
    pub fn base_moves(&self, board: &Board, position: &Position) -> (res: Vec<Position>)
        requires
            board.wf(),
            board@.in_bounds(position.r(), position.f()),
        ensures
            forall|q: Position| #[trigger] res@.contains(q) <==> base_move(board@, *self, *position, q),
    {
        match self.piece_type {
            PieceType::King => self.king_steps(board, position),
            PieceType::Knight => self.knight_jumps(board, position),
            PieceType::Pawn => self.pawn_moves(board, position),
            PieceType::Bishop => {
                let dirs = [(-1isize, -1isize), (-1, 1), (1, -1), (1, 1)];
                proof {
                    assert(dirs@ =~= bishop_dirs());
                }
                board.get_valid_positions_for_bishop_or_rook_or_queen(position, &self.color, &dirs)
            },
            PieceType::Rook => {
                let dirs = [(-1isize, 0isize), (1, 0), (0, -1), (0, 1)];
                proof {
                    assert(dirs@ =~= rook_dirs());
                }
                board.get_valid_positions_for_bishop_or_rook_or_queen(position, &self.color, &dirs)
            },
            PieceType::Queen => {
                let dirs = [
                    (-1isize, 0isize),
                    (1, 0),
                    (0, -1),
                    (0, 1),
                    (-1, -1),
                    (-1, 1),
                    (1, -1),
                    (1, 1),
                ];
                proof {
                    assert(dirs@ =~= queen_dirs());
                }
                board.get_valid_positions_for_bishop_or_rook_or_queen(position, &self.color, &dirs)
            },
        }
    }
}

} // verus!
