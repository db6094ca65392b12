use vstd::prelude::*;

use crate::apply::{applicable, apply_view, captured_by};
use crate::board::{Board, BoardSetup, BoardView, PlayerMove};
use crate::check::{has_escape, in_check};
use crate::piece::{point_value, Color, Piece};

verus! {

#[derive(Clone, Copy, Debug, PartialEq, Eq, Structural)]
pub enum GameEnding {
    Checkmate(Color),
    Resignation(Color),
    OutOfTime(Color),
    Stalemate,
    DrawByThreefoldRepetition,
    DrawByFiftyMoveRule,
    DrawByInsufficientMaterial,
    DrawByMutualAgreement,
}

#[derive(Clone, Copy, Debug, PartialEq, Eq, Structural)]
pub enum State {
    NotStarted,
    InProgress,
    Finished(GameEnding),
}

/// Pieces each side has taken, with their point totals.
#[derive(Debug)]
pub struct CapturedPieces {
    pub white: Vec<Piece>,
    pub white_points: u16,
    pub black: Vec<Piece>,
    pub black_points: u16,
}

fn copy_pieces(v: &Vec<Piece>) -> (r: Vec<Piece>)
    ensures
        r@ == v@,
{
    let mut r: Vec<Piece> = Vec::new();
    let mut i: usize = 0;
    while i < v.len()
        invariant
            i <= v@.len(),
            r@ == v@.subrange(0, i as int),
        decreases v@.len() - i,
    {
        r.push(v[i]);
        i += 1;
        proof {
            assert(r@ =~= v@.subrange(0, i as int));
        }
    }
    proof {
        assert(r@ =~= v@);
    }
    r
}

impl Clone for CapturedPieces {
    fn clone(&self) -> (r: Self)
        ensures
            r.white@ == self.white@,
            r.black@ == self.black@,
            r.white_points == self.white_points,
            r.black_points == self.black_points,
    {
        CapturedPieces {
            white: copy_pieces(&self.white),
            white_points: self.white_points,
            black: copy_pieces(&self.black),
            black_points: self.black_points,
        }
    }
}

impl CapturedPieces {
    pub fn new() -> (r: CapturedPieces)
        ensures
            r.white@.len() == 0,
            r.black@.len() == 0,
            r.white_points == 0,
            r.black_points == 0,
    {
        CapturedPieces { white: Vec::new(), white_points: 0, black: Vec::new(), black_points: 0 }
    }
}

/// Whether a player or the engine picks the seat.
#[derive(Clone, Copy, Debug, PartialEq, Eq, Structural)]
pub enum ColorPreference {
    White,
    Black,
    Random,
}

/// The clock of a timed game. Instants are whole seconds since the Unix epoch.
#[derive(Clone, Copy, Debug, PartialEq, Eq, Structural)]
pub struct GameTime {
    pub both_players_last_connected_at: Option<i64>,
    pub last_move_at: Option<i64>,
    pub white_seconds_left: usize,
    pub black_seconds_left: usize,
}

impl GameTime {
    pub open spec fn seconds_left(self, c: Color) -> int {
        if c == Color::White {
            self.white_seconds_left as int
        } else {
            self.black_seconds_left as int
        }
    }
}

/// Statistics of an engine search, kept with the snapshot that the engine's move produced.
#[derive(Clone, Copy, Debug, PartialEq, Eq, Structural)]
pub struct SearchStatistics {
    pub depth: u32,
    pub nodes: u64,
    pub qnodes: u64,
    pub time_ms: u64,
    pub from_book: bool,
}

/// A snapshot of a game.
#[derive(Debug)]
pub struct GameStateAtPointInTime {
    pub state: State,
    pub current_turn: Color,
    pub in_check: Option<Color>,
    pub board: Board,
    pub captured_pieces: CapturedPieces,
    pub engine_result: Option<SearchStatistics>,
}

impl Clone for GameStateAtPointInTime {
    fn clone(&self) -> (r: Self)
        ensures
            r.state == self.state,
            r.current_turn == self.current_turn,
            r.in_check == self.in_check,
            r.board@ == self.board@,
            r.captured_pieces.white@ == self.captured_pieces.white@,
            r.captured_pieces.black@ == self.captured_pieces.black@,
            r.captured_pieces.white_points == self.captured_pieces.white_points,
            r.captured_pieces.black_points == self.captured_pieces.black_points,
            r.engine_result == self.engine_result,
    {
        GameStateAtPointInTime {
            state: self.state,
            current_turn: self.current_turn,
            in_check: self.in_check,
            board: self.board.clone(),
            captured_pieces: self.captured_pieces.clone(),
            engine_result: self.engine_result,
        }
    }
}

/// A game: its id, its clock if it is timed, and the snapshots since creation,
/// oldest first.
#[derive(Debug)]
pub struct GameState {
    pub game_id: String,
    pub game_time: Option<GameTime>,
    pub history: Vec<GameStateAtPointInTime>,
}

pub open spec fn is_finished(s: State) -> bool {
    s is Finished
}

/// Consecutive snapshots alternate the side to move unless the later one is finished.
pub open spec fn alternates(prev: GameStateAtPointInTime, next: GameStateAtPointInTime) -> bool {
    is_finished(next.state) || next.current_turn == prev.current_turn.opposite()
}

/// Neither counter of clock `a` is above that of clock `b`.
pub open spec fn clock_le(a: Option<GameTime>, b: Option<GameTime>) -> bool {
    match (a, b) {
        (Some(x), Some(y)) => x.white_seconds_left <= y.white_seconds_left && x.black_seconds_left
            <= y.black_seconds_left,
        (None, None) => true,
        _ => false,
    }
}

impl GameState {
    /// The history is never empty, every board is well formed, and consecutive
    /// snapshots alternate the side to move unless the later one is finished.
    pub open spec fn wf(&self) -> bool {
        &&& self.history@.len() >= 1
        &&& forall|i: int| 0 <= i < self.history@.len() ==> (#[trigger] self.history@[i]).board.wf()
        &&& forall|i: int|
            0 <= i < self.history@.len() - 1 ==> alternates(#[trigger] self.history@[i], self.history@[i + 1])
    }

    pub open spec fn current(&self) -> GameStateAtPointInTime {
        self.history@.last()
    }

    /// A new game: one snapshot, not started, White to move, nothing captured,
    /// and both clocks at `seconds_per_player` when the game is timed.
    pub fn new(game_id: String, board_setup: &BoardSetup, seconds_per_player: Option<usize>) -> (r: GameState)
        requires
            board_setup.valid(),
        ensures
            r.wf(),
            r.game_id@ == game_id@,
            r.history@.len() == 1,
            r.current().state == State::NotStarted,
            r.current().current_turn == Color::White,
            r.current().in_check is None,
            board_setup.produces(r.current().board@),
            r.current().board@.move_count == 0,
            r.current().captured_pieces.white@.len() == 0,
            r.current().captured_pieces.black@.len() == 0,
            r.current().captured_pieces.white_points == 0,
            r.current().captured_pieces.black_points == 0,
            r.current().engine_result is None,
            r.game_time == (match seconds_per_player {
                Some(s) => Some(
                    GameTime {
                        both_players_last_connected_at: None,
                        last_move_at: None,
                        white_seconds_left: s,
                        black_seconds_left: s,
                    },
                ),
                None => None,
            }),
    {
        let board = Board::new(board_setup);
        let first = GameStateAtPointInTime {
            state: State::NotStarted,
            current_turn: Color::White,
            in_check: None,
            board,
            captured_pieces: CapturedPieces::new(),
            engine_result: None,
        };
        let mut history: Vec<GameStateAtPointInTime> = Vec::new();
        history.push(first);
        let game_time = match seconds_per_player {
            Some(seconds) => Some(
                GameTime {
                    both_players_last_connected_at: None,
                    last_move_at: None,
                    white_seconds_left: seconds,
                    black_seconds_left: seconds,
                },
            ),
            None => None,
        };
        GameState { game_id, game_time, history }
    }

    pub fn current_state(&self) -> (r: &GameStateAtPointInTime)
        requires
            self.wf(),
        ensures
            *r == self.current(),
    {
        let n = self.history.len();
        &self.history[n - 1]
    }

    /// The current snapshot, for changes in place; the earlier snapshots stay.
    pub fn current_state_mut(&mut self) -> (r: &mut GameStateAtPointInTime)
        requires
            old(self).wf(),
        ensures
            *r == old(self).current(),
            final(self).history@ == old(self).history@.update(old(self).history@.len() - 1, *final(r)),
            final(self).game_id == old(self).game_id,
            final(self).game_time == old(self).game_time,
    {
        let n = self.history.len();
        &mut self.history[n - 1]
    }
}


/// Relies on chrono's `Utc::now` and `DateTime::timestamp`: the current instant in
/// whole seconds since the Unix epoch.
#[verifier::external_body]
pub(crate) fn unix_now() -> (r: i64) {
    chrono::Utc::now().timestamp()
}

/// The later of the two clock instants; `None` when neither is set.
pub open spec fn anchor(t: GameTime) -> Option<int> {
    match (t.both_players_last_connected_at, t.last_move_at) {
        (Some(a), Some(b)) => Some(if a >= b { a as int } else { b as int }),
        (Some(a), None) => Some(a as int),
        (None, Some(b)) => Some(b as int),
        (None, None) => None,
    }
}

/// Seconds left to `c` at instant `now`: its counter less the whole seconds since
/// the anchor, never below zero; zero when the clock has no anchor.
pub open spec fn remaining(t: GameTime, c: Color, now: int) -> int {
    match anchor(t) {
        Some(a) => {
            let elapsed = if now > a {
                now - a
            } else {
                0
            };
            if t.seconds_left(c) > elapsed {
                t.seconds_left(c) - elapsed
            } else {
                0
            }
        },
        None => 0,
    }
}

/// The clock after `c` acts at `now`: `c`'s counter is charged, and the move time
/// is recorded unless the counter ran out.
pub open spec fn clock_after(t: GameTime, c: Color, now: int) -> GameTime {
    let rem = remaining(t, c, now);
    let charged = if c == Color::White {
        GameTime { white_seconds_left: rem as usize, ..t }
    } else {
        GameTime { black_seconds_left: rem as usize, ..t }
    };
    if rem > 0 {
        GameTime { last_move_at: Some(now as i64), ..charged }
    } else {
        charged
    }
}

/// Whether the side to move has run out of time at `now`.
pub open spec fn flagged(t: Option<GameTime>, c: Color, now: int) -> bool {
    match t {
        Some(x) => remaining(x, c, now) == 0,
        None => false,
    }
}

/// Phase, side to move and in-check flag after the side `mover` played onto board `b`:
/// if the opponent is in check and has no escape it is checkmated and the turn stays;
/// otherwise the turn passes.
pub open spec fn mate_outcome(state: State, mover: Color, b: BoardView) -> (State, Color, Option<Color>) {
    let opp = mover.opposite();
    if in_check(b, opp) {
        if has_escape(b, opp) {
            (state, opp, Some(opp))
        } else {
            (State::Finished(GameEnding::Checkmate(opp)), mover, Some(opp))
        }
    } else {
        (state, opp, None)
    }
}

/// A capture list and its total after `cap` is (or is not) taken.
pub open spec fn list_after(list: Seq<Piece>, cap: Option<Piece>) -> Seq<Piece> {
    match cap {
        Some(p) => list.push(p),
        None => list,
    }
}

pub open spec fn points_after(points: int, cap: Option<Piece>) -> int {
    match cap {
        Some(p) => points + point_value(p.piece_type),
        None => points,
    }
}

/// Snapshot `n` follows snapshot `c` when `c`'s side to move plays `m` at `now`
/// under clock `t`.
pub open spec fn step(c: GameStateAtPointInTime, n: GameStateAtPointInTime, t: Option<GameTime>, m: PlayerMove, now: int) -> bool {
    &&& n.engine_result is None
    &&& if flagged(t, c.current_turn, now) {
        &&& n.state == State::Finished(GameEnding::OutOfTime(c.current_turn))
        &&& n.current_turn == c.current_turn
        &&& n.in_check == c.in_check
        &&& n.board@ == c.board@
        &&& n.captured_pieces.white@ == c.captured_pieces.white@
        &&& n.captured_pieces.black@ == c.captured_pieces.black@
        &&& n.captured_pieces.white_points == c.captured_pieces.white_points
        &&& n.captured_pieces.black_points == c.captured_pieces.black_points
    } else {
        let cap = captured_by(c.board@, m);
        let white_takes = c.current_turn == Color::White;
        let b1 = apply_view(c.board@, m);
        &&& n.board@ == b1
        &&& (n.state, n.current_turn, n.in_check) == mate_outcome(c.state, c.current_turn, b1)
        &&& n.captured_pieces.white@ == (if white_takes { list_after(c.captured_pieces.white@, cap) } else { c.captured_pieces.white@ })
        &&& n.captured_pieces.black@ == (if white_takes { c.captured_pieces.black@ } else { list_after(c.captured_pieces.black@, cap) })
        &&& n.captured_pieces.white_points == (if white_takes { points_after(c.captured_pieces.white_points as int, cap) } else { c.captured_pieces.white_points as int })
        &&& n.captured_pieces.black_points == (if white_takes { c.captured_pieces.black_points as int } else { points_after(c.captured_pieces.black_points as int, cap) })
    }
}

/// Game `g1` is game `g0` after the side to move played `m` at instant `now`: one
/// snapshot appended, the earlier ones kept, the clock charged.
pub open spec fn move_made(g0: GameState, g1: GameState, m: PlayerMove, now: int) -> bool {
    &&& g1.game_id@ == g0.game_id@
    &&& g1.history@.len() == g0.history@.len() + 1
    &&& g1.history@.subrange(0, g0.history@.len() as int) == g0.history@
    &&& step(g0.current(), g1.current(), g0.game_time, m, now)
    &&& g1.game_time == match g0.game_time {
        Some(t) => Some(clock_after(t, g0.current().current_turn, now)),
        None => None,
    }
}

/// What `make_move` needs: a well-formed game whose side to move may apply `m`,
/// with room in the counters.
pub open spec fn can_apply(g: GameState, m: PlayerMove) -> bool {
    &&& g.wf()
    &&& applicable(g.current().board@, m)
    &&& g.current().board@.move_count < usize::MAX - 1
    &&& g.current().captured_pieces.white_points <= u16::MAX - 9
    &&& g.current().captured_pieces.black_points <= u16::MAX - 9
}

/// Charges the side to move for the time since the later of the two clock
/// instants; when its counter runs out the snapshot is finished on time.
fn update_game_time(game_time: &mut GameTime, game_state: &mut GameStateAtPointInTime, now: i64) -> (out: bool)
    ensures
        out == (remaining(*old(game_time), old(game_state).current_turn, now as int) == 0),
        *final(game_time) == clock_after(*old(game_time), old(game_state).current_turn, now as int),
        final(game_state).state == (if remaining(*old(game_time), old(game_state).current_turn, now as int) == 0 {
            State::Finished(GameEnding::OutOfTime(old(game_state).current_turn))
        } else {
            old(game_state).state
        }),
        final(game_state).current_turn == old(game_state).current_turn,
        final(game_state).in_check == old(game_state).in_check,
        final(game_state).board == old(game_state).board,
        final(game_state).captured_pieces == old(game_state).captured_pieces,
        final(game_state).engine_result == old(game_state).engine_result,
{
    let current_turn = game_state.current_turn;
    let last_action: Option<i64> = match (game_time.both_players_last_connected_at, game_time.last_move_at) {
        (Some(a), Some(b)) => Some(if a >= b { a } else { b }),
        (Some(a), None) => Some(a),
        (None, Some(b)) => Some(b),
        (None, None) => None,
    };
    let left = match current_turn {
        Color::White => game_time.white_seconds_left,
        Color::Black => game_time.black_seconds_left,
    };
    let rem: usize = match last_action {
        Some(a) => {
            let elapsed: i128 = if now > a { now as i128 - a as i128 } else { 0 };
            if (left as i128) > elapsed {
                (left as i128 - elapsed) as usize
            } else {
                0
            }
        },
        None => 0,
    };
    match current_turn {
        Color::White => game_time.white_seconds_left = rem,
        Color::Black => game_time.black_seconds_left = rem,
    }
    if rem == 0 {
        game_state.state = State::Finished(GameEnding::OutOfTime(current_turn));
        return true;
    }
    game_time.last_move_at = Some(now);
    false
}

/// After a move by the side to move: checkmates the opponent when it is in check
/// and has no escape; otherwise passes the turn, recording whether the opponent is in check.
fn check_for_mates(game_state: &mut GameStateAtPointInTime)
    requires
        old(game_state).board.wf(),
        old(game_state).board@.move_count < usize::MAX,
    ensures
        (final(game_state).state, final(game_state).current_turn, final(game_state).in_check)
            == mate_outcome(old(game_state).state, old(game_state).current_turn, old(game_state).board@),
        final(game_state).board == old(game_state).board,
        final(game_state).captured_pieces == old(game_state).captured_pieces,
        final(game_state).engine_result == old(game_state).engine_result,
{
    let opponent_color = game_state.current_turn.opponent_color();
    if game_state.board.is_king_in_check(&opponent_color) {
        game_state.in_check = Some(opponent_color);
        if game_state.board.can_escape_check(&opponent_color) {
            game_state.current_turn = opponent_color;
            return;
        }
        game_state.state = State::Finished(GameEnding::Checkmate(opponent_color));
        return;
    }
    game_state.in_check = None;
    game_state.current_turn = opponent_color;
}

/// Plays `player_move` for the side to move at instant `now` (seconds since the
/// Unix epoch): charges the clock, and unless the side ran out of time applies
/// the move, records the capture and settles check and checkmate. The new
/// snapshot is appended to the history.
pub fn make_move_at(game_state: &mut GameState, player_move: &PlayerMove, now: i64)
    requires
        can_apply(*old(game_state), *player_move),
    ensures
        final(game_state).wf(),
        move_made(*old(game_state), *final(game_state), *player_move, now as int),
        clock_le(final(game_state).game_time, old(game_state).game_time),
{
    let mut next_state = game_state.current_state().clone();
    next_state.engine_result = None;
    let mut clock = game_state.game_time;
    let out_of_time = match &mut clock {
        Some(game_time) => update_game_time(game_time, &mut next_state, now),
        None => false,
    };
    game_state.game_time = clock;
    if !out_of_time {
        let captured = next_state.board.apply_move(player_move);
        match captured {
            Some(captured_piece) => {
                match next_state.current_turn {
                    Color::White => {
                        next_state.captured_pieces.white.push(captured_piece);
                        next_state.captured_pieces.white_points = next_state.captured_pieces.white_points
                            + captured_piece.get_point_value();
                    },
                    Color::Black => {
                        next_state.captured_pieces.black.push(captured_piece);
                        next_state.captured_pieces.black_points = next_state.captured_pieces.black_points
                            + captured_piece.get_point_value();
                    },
                }
            },
            None => {},
        }
        check_for_mates(&mut next_state);
    }
    let ghost h0 = game_state.history@;
    game_state.history.push(next_state);
    proof {
        assert(game_state.history@.subrange(0, h0.len() as int) =~= h0);
        assert forall|i: int| 0 <= i < game_state.history@.len() - 1 implies alternates(
            #[trigger] game_state.history@[i],
            game_state.history@[i + 1],
        ) by {
            if i < h0.len() - 1 {
                assert(game_state.history@[i] == h0[i]);
                assert(game_state.history@[i + 1] == h0[i + 1]);
            }
        }
    }
}

/// Plays `player_move` for the side to move at the current time; see `make_move_at`.
pub fn make_move(game_state: &mut GameState, player_move: &PlayerMove)
    requires
        can_apply(*old(game_state), *player_move),
    ensures
        final(game_state).wf(),
        exists|now: int| move_made(*old(game_state), *final(game_state), *player_move, now),
        clock_le(final(game_state).game_time, old(game_state).game_time),
{
    let now = unix_now();
    make_move_at(game_state, player_move, now);
}

/// Whole seconds an engine search of `search_duration` milliseconds costs: rounded up, at least one.
pub open spec fn think_seconds(search_duration: int) -> int {
    let s = (search_duration + 999) / 1000;
    if s >= 1 {
        s
    } else {
        1
    }
}

pub open spec fn charged(t: GameTime, c: Color, secs: int) -> GameTime {
    let left = t.seconds_left(c);
    let rem = if left > secs {
        left - secs
    } else {
        0
    };
    if c == Color::White {
        GameTime { white_seconds_left: rem as usize, ..t }
    } else {
        GameTime { black_seconds_left: rem as usize, ..t }
    }
}

/// Charges the side to move (the engine) for its search time: `search_duration`
/// milliseconds rounded up to whole seconds, at least one, never below zero.
pub fn handle_engine_think_time(game_state: &mut GameState, search_duration: u64)
    requires
        old(game_state).wf(),
    ensures
        final(game_state).history == old(game_state).history,
        final(game_state).game_id == old(game_state).game_id,
        final(game_state).game_time == match old(game_state).game_time {
            Some(t) => Some(charged(t, old(game_state).current().current_turn, think_seconds(search_duration as int))),
            None => None,
        },
        clock_le(final(game_state).game_time, old(game_state).game_time),
{
    let engine_color = game_state.current_state().current_turn;
    let search_seconds: u64 = search_duration / 1000 + if search_duration % 1000 > 0 { 1 } else { 0 };
    let time_to_decrement: u64 = if search_seconds >= 1 { search_seconds } else { 1 };
    proof {
        assert(time_to_decrement == think_seconds(search_duration as int));
    }
    match &mut game_state.game_time {
        Some(game_time) => {
            match engine_color {
                Color::White => {
                    game_time.white_seconds_left = if (game_time.white_seconds_left as u64) > time_to_decrement {
                        (game_time.white_seconds_left as u64 - time_to_decrement) as usize
                    } else {
                        0
                    };
                },
                Color::Black => {
                    game_time.black_seconds_left = if (game_time.black_seconds_left as u64) > time_to_decrement {
                        (game_time.black_seconds_left as u64 - time_to_decrement) as usize
                    } else {
                        0
                    };
                },
            }
        },
        None => {},
    }
}

/// The same charge as `handle_engine_think_time`.
pub fn update_game_time_after_engine_move(game_state: &mut GameState, search_duration: u64)
    requires
        old(game_state).wf(),
    ensures
        final(game_state).history == old(game_state).history,
        final(game_state).game_id == old(game_state).game_id,
        final(game_state).game_time == match old(game_state).game_time {
            Some(t) => Some(charged(t, old(game_state).current().current_turn, think_seconds(search_duration as int))),
            None => None,
        },
        clock_le(final(game_state).game_time, old(game_state).game_time),
{
    handle_engine_think_time(game_state, search_duration)
}


/// A game's history is never empty, and each snapshot passes the turn to the
/// other side unless it is finished.
pub proof fn lemma_history_alternates(g: GameState, i: int)
    requires
        g.wf(),
        0 <= i < g.history@.len() - 1,
    ensures
        g.history@.len() >= 1,
        is_finished(g.history@[i + 1].state) || g.history@[i + 1].current_turn == g.history@[i].current_turn.opposite(),
{
    assert(alternates(g.history@[i], g.history@[i + 1]));
}


/// Charging a side for a move never raises either counter.
pub proof fn lemma_clock_never_increases(t: GameTime, c: Color, now: int)
    ensures
        clock_le(Some(clock_after(t, c, now)), Some(t)),
{
}

/// Charging a side for an engine search never raises either counter.
pub proof fn lemma_engine_charge_never_increases(t: GameTime, c: Color, secs: int)
    requires
        secs >= 0,
    ensures
        clock_le(Some(charged(t, c, secs)), Some(t)),
{
}

} // verus!
