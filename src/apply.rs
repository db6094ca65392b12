use vstd::prelude::*;

use crate::board::{pos, Board, BoardView, PlayerMove, Position};
use crate::movegen::abs;
use crate::piece::{Color, Piece, PieceType};

verus! {

pub open spec fn stamped(p: Piece, mc: int) -> Piece {
    Piece { last_game_move: Some(mc as usize), ..p }
}

/// The rank on which a pawn of color `c` promotes: the top rank for White, rank 1 for Black.
pub open spec fn far_rank(b: BoardView, c: Color) -> int {
    if c == Color::White {
        b.ranks()
    } else {
        1
    }
}

pub open spec fn promoted(b: BoardView, p: Piece, to: Position) -> Piece {
    if p.piece_type == PieceType::Pawn && to.r() == far_rank(b, p.color) {
        Piece { piece_type: PieceType::Queen, ..p }
    } else {
        p
    }
}

/// The piece that lands on the destination: stamped with the new move count, and
/// promoted to a queen when it is a pawn reaching its far rank.
pub open spec fn moved_piece(b: BoardView, m: PlayerMove) -> Piece {
    promoted(b, stamped(b.at(m.from.r(), m.from.f())->Some_0, b.move_count + 1), m.to)
}

/// A king move of more than one file is a castling move.
pub open spec fn is_castling(b: BoardView, m: PlayerMove) -> bool {
    b.at(m.from.r(), m.from.f())->Some_0.piece_type == PieceType::King && abs(m.from.f() - m.to.f()) > 1
}

/// A diagonal pawn move onto an empty square takes the pawn beside the origin.
pub open spec fn is_en_passant_capture(b: BoardView, m: PlayerMove) -> bool {
    &&& !is_castling(b, m)
    &&& b.at(m.to.r(), m.to.f()) is None
    &&& b.at(m.from.r(), m.from.f())->Some_0.piece_type == PieceType::Pawn
    &&& m.from.f() != m.to.f()
}

/// File of the corner rook, its file after castling, and the king's file after castling.
pub open spec fn castling_files(b: BoardView, m: PlayerMove) -> (int, int, int) {
    if m.from.f() < m.to.f() {
        (b.files(), m.from.f() + 1, m.from.f() + 2)
    } else {
        (1, m.from.f() - 1, m.from.f() - 2)
    }
}

pub open spec fn stamp_opt(p: Option<Piece>, mc: int) -> Option<Piece> {
    match p {
        Some(x) => Some(stamped(x, mc)),
        None => None,
    }
}

/// The board after move `m`.
pub open spec fn apply_view(b: BoardView, m: PlayerMove) -> BoardView {
    let b1 = BoardView { move_count: b.move_count + 1, ..b };
    let p = moved_piece(b, m);
    let r = m.from.r();
    if is_castling(b, m) {
        let (rook_from, rook_to, king_to) = castling_files(b, m);
        let rook = stamp_opt(b.at(r, rook_from), b.move_count + 1);
        b1.set(r, rook_to, rook).set(r, rook_from, None).set(r, king_to, Some(p)).set(r, m.from.f(), None)
    } else {
        let b2 = if is_en_passant_capture(b, m) {
            b1.set(r, m.to.f(), None)
        } else {
            b1
        };
        b2.set(m.to.r(), m.to.f(), Some(p)).set(r, m.from.f(), None)
    }
}

/// The piece that move `m` takes, if any.
pub open spec fn captured_by(b: BoardView, m: PlayerMove) -> Option<Piece> {
    if is_castling(b, m) {
        None
    } else if b.at(m.to.r(), m.to.f()) is Some {
        b.at(m.to.r(), m.to.f())
    } else if is_en_passant_capture(b, m) {
        b.at(m.from.r(), m.to.f())
    } else {
        None
    }
}

/// Both squares of `m` are on the board and a piece stands on the origin.
pub open spec fn applicable(b: BoardView, m: PlayerMove) -> bool {
    &&& b.in_bounds(m.from.r(), m.from.f())
    &&& b.in_bounds(m.to.r(), m.to.f())
    &&& b.at(m.from.r(), m.from.f()) is Some
}

impl Board {
    fn check_for_pawn_promotion(&self, piece: &mut Piece, player_move: &PlayerMove)
        requires
            self.wf(),
        ensures
            *final(piece) == promoted(self@, *old(piece), player_move.to),
    {
        let far = match piece.color {
            Color::White => self.num_ranks(),
            Color::Black => 1,
        };
        if piece.piece_type == PieceType::Pawn && player_move.to.rank.0 == far {
            piece.piece_type = PieceType::Queen;
        }
    }

    /// Called when the destination is empty: a pawn moving diagonally takes the
    /// pawn beside its origin.
    fn check_for_en_passant_pawn_capture(&mut self, player_piece: &Piece, player_move: &PlayerMove) -> (r: Option<Piece>)
        requires
            old(self).wf(),
            old(self)@.in_bounds(player_move.from.r(), player_move.from.f()),
            old(self)@.in_bounds(player_move.to.r(), player_move.to.f()),
        ensures
            final(self).wf(),
            player_piece.piece_type == PieceType::Pawn && player_move.from.f() != player_move.to.f() ==> {
                &&& r == old(self)@.at(player_move.from.r(), player_move.to.f())
                &&& final(self)@ == old(self)@.set(player_move.from.r(), player_move.to.f(), None)
            },
            !(player_piece.piece_type == PieceType::Pawn && player_move.from.f() != player_move.to.f()) ==> {
                &&& r is None
                &&& final(self)@ == old(self)@
            },
    {
        if player_piece.piece_type == PieceType::Pawn && player_move.from.file.0 != player_move.to.file.0 {
            let captured_pawn_position = pos(player_move.from.rank.0, player_move.to.file.0);
            let captured_pawn = self.get_piece_at_position(&captured_pawn_position);
            self.set_piece_at_position(&captured_pawn_position, None);
            return captured_pawn;
        }
        None
    }

    fn check_for_captured_piece(&mut self, player_piece: &Piece, player_move: &PlayerMove) -> (r: Option<Piece>)
        requires
            old(self).wf(),
            old(self)@.in_bounds(player_move.from.r(), player_move.from.f()),
            old(self)@.in_bounds(player_move.to.r(), player_move.to.f()),
        ensures
            final(self).wf(),
            old(self)@.at(player_move.to.r(), player_move.to.f()) is Some ==> r == old(self)@.at(
                player_move.to.r(),
                player_move.to.f(),
            ) && final(self)@ == old(self)@,
            old(self)@.at(player_move.to.r(), player_move.to.f()) is None && player_piece.piece_type
                == PieceType::Pawn && player_move.from.f() != player_move.to.f() ==> {
                &&& r == old(self)@.at(player_move.from.r(), player_move.to.f())
                &&& final(self)@ == old(self)@.set(player_move.from.r(), player_move.to.f(), None)
            },
            old(self)@.at(player_move.to.r(), player_move.to.f()) is None && !(player_piece.piece_type
                == PieceType::Pawn && player_move.from.f() != player_move.to.f()) ==> r is None
                && final(self)@ == old(self)@,
    {
        match self.get_piece_at_position(&player_move.to) {
            Some(captured_piece) => Some(captured_piece),
            None => self.check_for_en_passant_pawn_capture(player_piece, player_move),
        }
    }

    /// Performs a castling move, if `player_move` is one: the rook goes next to the
    /// king's origin on the side of the move, the king two files past its origin.
    fn check_for_castling(&mut self, player_piece: &Piece, player_move: &PlayerMove) -> (r: bool)
        requires
            old(self).wf(),
            old(self)@.in_bounds(player_move.from.r(), player_move.from.f()),
            old(self)@.in_bounds(player_move.to.r(), player_move.to.f()),
            old(self)@.at(player_move.from.r(), player_move.from.f()) is Some,
            (player_piece.piece_type == PieceType::King) == (old(self)@.at(
                player_move.from.r(),
                player_move.from.f(),
            )->Some_0.piece_type == PieceType::King),
        ensures
            final(self).wf(),
            r == is_castling(old(self)@, *player_move),
            r ==> {
                let (rook_from, rook_to, king_to) = castling_files(old(self)@, *player_move);
                let fr = player_move.from.r();
                final(self)@ == old(self)@.set(
                    fr,
                    rook_to,
                    stamp_opt(old(self)@.at(fr, rook_from), old(self)@.move_count),
                ).set(fr, rook_from, None).set(fr, king_to, Some(*player_piece)).set(fr, player_move.from.f(), None)
            },
            !r ==> final(self)@ == old(self)@,
    {
        let from_file = player_move.from.file.0;
        let to_file = player_move.to.file.0;
        let is_castling = player_piece.piece_type == PieceType::King && (if from_file > to_file {
            from_file - to_file > 1
        } else {
            to_file - from_file > 1
        });
        if !is_castling {
            return false;
        }
        let (old_rook_file, new_rook_file, new_king_file) = if from_file < to_file {
            (self.num_files(), from_file + 1, from_file + 2)
        } else {
            (1, from_file - 1, from_file - 2)
        };
        let rank = player_move.from.rank.0;
        let old_rook_position = pos(rank, old_rook_file);
        let new_rook_position = pos(rank, new_rook_file);
        let new_king_position = pos(rank, new_king_file);
        let rook = match self.get_piece_at_position(&old_rook_position) {
            Some(p) => Some(Piece { last_game_move: Some(self.move_count), ..p }),
            None => None,
        };
        self.set_piece_at_position(&new_rook_position, rook);
        self.set_piece_at_position(&old_rook_position, None);
        self.set_piece_at_position(&new_king_position, Some(*player_piece));
        self.set_piece_at_position(&player_move.from, None);
        true
    }

    /// Plays `player_move`: increments the move count, stamps the moved piece with
    /// it, promotes a pawn reaching its far rank, relocates the rook when castling,
    /// and returns the piece taken, if any.
    pub fn apply_move(&mut self, player_move: &PlayerMove) -> (r: Option<Piece>)
        requires
            old(self).wf(),
            applicable(old(self)@, *player_move),
            old(self)@.move_count < usize::MAX,
        ensures
            final(self).wf(),
            final(self)@ == apply_view(old(self)@, *player_move),
            r == captured_by(old(self)@, *player_move),
    {
        let ghost b0 = self@;
        let mut player_piece = self.get_piece_at_position(&player_move.from).unwrap();
        let unpromoted = player_piece;
        self.move_count = self.move_count + 1;
        let ghost b1 = self@;
        assert(b1 == BoardView { move_count: b0.move_count + 1, ..b0 });
        player_piece.last_game_move = Some(self.move_count);
        self.check_for_pawn_promotion(&mut player_piece, player_move);
        assert(player_piece == moved_piece(b0, *player_move));
        let ghost mid = self@;
        if self.check_for_castling(&player_piece, player_move) {
            proof {
                assert(self@ == apply_view(b0, *player_move));
            }
            None
        } else {
            let captured_piece = self.check_for_captured_piece(&unpromoted, player_move);
            self.set_piece_at_position(&player_move.to, Some(player_piece));
            self.set_piece_at_position(&player_move.from, None);
            proof {
                assert(self@ == apply_view(b0, *player_move));
            }
            captured_piece
        }
    }
}


/// A pawn becomes a queen exactly when it lands on its far rank (the top rank
/// for White, rank 1 for Black); otherwise it stays a pawn.
pub proof fn lemma_promotion_only_on_far_rank(b: BoardView, m: PlayerMove)
    requires
        b.wf(),
        applicable(b, m),
        m.from != m.to,
        b.at(m.from.r(), m.from.f())->Some_0.piece_type == PieceType::Pawn,
    ensures
        apply_view(b, m).at(m.to.r(), m.to.f()) is Some,
        apply_view(b, m).at(m.to.r(), m.to.f())->Some_0.piece_type == (if m.to.r() == far_rank(
            b,
            b.at(m.from.r(), m.from.f())->Some_0.color,
        ) {
            PieceType::Queen
        } else {
            PieceType::Pawn
        }),
{
    let b1 = BoardView { move_count: b.move_count + 1, ..b };
    let b2 = if is_en_passant_capture(b, m) {
        b1.set(m.from.r(), m.to.f(), None)
    } else {
        b1
    };
    let p = moved_piece(b, m);
    assert(b2.ranks() == b.ranks());
    assert(b2.rows[b.ranks() - m.to.r()].len() == b.files()) by {
        assert(b.rows[b.ranks() - m.to.r()].len() == b.files());
    }
    let b3 = b2.set(m.to.r(), m.to.f(), Some(p));
    assert(b3.at(m.to.r(), m.to.f()) == Some(p));
    assert(b3.set(m.from.r(), m.from.f(), None).at(m.to.r(), m.to.f()) == Some(p));
}

} // verus!
