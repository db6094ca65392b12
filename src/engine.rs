use vstd::prelude::*;

use crate::board::{pos, PlayerMove, Position};
use crate::check::{validate_move, validation, MoveError};
use crate::game::{charged, make_move_at, think_seconds, GameState, GameStateAtPointInTime, GameTime, SearchStatistics};
use crate::piece::Color;
use crate::session::{finished, GameRecord};

verus! {

/// A square as the search engine reports it: 0-based file and rank.
#[derive(Clone, Copy, Debug, PartialEq, Eq, Structural)]
pub struct Square {
    pub file: u8,
    pub rank: u8,
}

/// What a search of the external engine returns.
#[derive(Clone, Copy, Debug, PartialEq, Eq, Structural)]
pub struct SearchResult {
    pub best_move_from: Option<Square>,
    pub best_move_to: Option<Square>,
    pub depth: u32,
    pub nodes: u64,
    pub qnodes: u64,
    pub time_ms: u64,
    pub from_book: bool,
}

pub open spec fn square_position(s: Square) -> Position {
    Position { rank: crate::board::Rank((s.rank + 1) as usize), file: crate::board::File((s.file + 1) as usize) }
}

/// The engine's best move in 1-based coordinates, when it found one.
pub fn get_engine_move_from_search_result(search_result: &SearchResult) -> (r: Option<PlayerMove>)
    ensures
        match (search_result.best_move_from, search_result.best_move_to) {
            (Some(f), Some(t)) => r == Some(PlayerMove { from: square_position(f), to: square_position(t) }),
            _ => r is None,
        },
{
    match (search_result.best_move_from, search_result.best_move_to) {
        (Some(from_square), Some(to_square)) => Some(
            PlayerMove {
                from: pos(from_square.rank as usize + 1, from_square.file as usize + 1),
                to: pos(to_square.rank as usize + 1, to_square.file as usize + 1),
            },
        ),
        _ => None,
    }
}

/// The engine's seat: the one without a username, when exactly one has none.
pub open spec fn engine_seat(g: &GameRecord) -> Option<Color> {
    match (g.white_username, g.black_username) {
        (None, Some(_)) => Some(Color::White),
        (Some(_), None) => Some(Color::Black),
        _ => None,
    }
}

pub fn get_engine_color(game: &GameRecord) -> (r: Option<Color>)
    ensures
        r == engine_seat(game),
{
    match (&game.white_username, &game.black_username) {
        (None, Some(_)) => Some(Color::White),
        (Some(_), None) => Some(Color::Black),
        _ => None,
    }
}

/// A game against the engine in which the engine is to move.
pub open spec fn engine_to_move(g: &GameRecord) -> bool {
    g.engine_difficulty is Some && engine_seat(g) == Some(g.current().current_turn)
}

pub fn is_engine_turn(game: &GameRecord) -> (r: bool)
    requires
        game.wf(),
    ensures
        r == engine_to_move(game),
{
    if game.engine_difficulty.is_none() {
        return false;
    }
    match get_engine_color(game) {
        Some(c) => c == game.game_state.current_state().current_turn,
        None => false,
    }
}

/// Why an engine result is not applied.
#[derive(Clone, Copy, Debug, PartialEq, Eq, Structural)]
pub enum EngineError {
    /// It is not the engine's turn in an unfinished engine game.
    NotEngineTurn,
    /// The search returned no move.
    NoMove,
    /// The returned move breaks the rules.
    Move(MoveError),
}

pub open spec fn charge_clock(t: Option<GameTime>, c: Color, ms: int) -> Option<GameTime> {
    match t {
        Some(x) => Some(charged(x, c, think_seconds(ms))),
        None => None,
    }
}

/// The move a search result names, in 1-based coordinates.
pub open spec fn engine_move(sr: SearchResult) -> PlayerMove {
    PlayerMove { from: square_position(sr.best_move_from->Some_0), to: square_position(sr.best_move_to->Some_0) }
}

pub open spec fn statistics(sr: SearchResult) -> SearchStatistics {
    SearchStatistics {
        depth: sr.depth,
        nodes: sr.nodes,
        qnodes: sr.qnodes,
        time_ms: sr.time_ms,
        from_book: sr.from_book,
    }
}

/// The clock after side `c` moves at `now`.
pub open spec fn clock_after_move(t: Option<GameTime>, c: Color, now: int) -> Option<GameTime> {
    match t {
        Some(x) => Some(crate::game::clock_after(x, c, now)),
        None => None,
    }
}

/// The outcome of applying search result `sr` to `g`.
pub open spec fn engine_outcome(g: &GameRecord, sr: SearchResult) -> Result<(), EngineError> {
    if finished(g) || !engine_to_move(g) {
        Err(EngineError::NotEngineTurn)
    } else if sr.best_move_from is None || sr.best_move_to is None {
        Err(EngineError::NoMove)
    } else if validation(g.current().board@, engine_move(sr), g.current().current_turn) is Err {
        Err(EngineError::Move(validation(g.current().board@, engine_move(sr), g.current().current_turn)->Err_0))
    } else {
        Ok(())
    }
}

/// Plays the engine's search result at instant `now`: the move is validated and
/// made, the engine's clock is charged its search time (rounded up to whole
/// seconds, at least one), and the statistics are kept with the new snapshot.
pub fn apply_engine_result(game: &mut GameRecord, search_result: &SearchResult, now: i64) -> (r: Result<(), EngineError>)
    requires
        old(game).wf(),
        old(game).current().board@.move_count < usize::MAX - 1,
        old(game).current().captured_pieces.white_points <= u16::MAX - 9,
        old(game).current().captured_pieces.black_points <= u16::MAX - 9,
    ensures
        r == engine_outcome(old(game), *search_result),
        r is Err ==> *final(game) == *old(game),
        r is Ok ==> {
            let m = engine_move(*search_result);
            let c = old(game).current().current_turn;
            &&& final(game).wf()
            &&& crate::session::same_seats(final(game), old(game))
            &&& final(game).game_state.game_id@ == old(game).game_state.game_id@
            &&& final(game).game_state.history@.len() == old(game).game_state.history@.len() + 1
            &&& final(game).game_state.history@.subrange(0, old(game).game_state.history@.len() as int)
                == old(game).game_state.history@
            &&& crate::game::step(
                old(game).current(),
                GameStateAtPointInTime { engine_result: None, ..final(game).current() },
                old(game).game_state.game_time,
                m,
                now as int,
            )
            &&& final(game).current().engine_result == Some(statistics(*search_result))
            &&& final(game).game_state.game_time == charge_clock(
                clock_after_move(old(game).game_state.game_time, c, now as int),
                c,
                search_result.time_ms as int,
            )
            &&& crate::game::clock_le(final(game).game_state.game_time, old(game).game_state.game_time)
        },
{
    if crate::session::is_game_over(game) || !is_engine_turn(game) {
        return Err(EngineError::NotEngineTurn);
    }
    let chosen = match get_engine_move_from_search_result(search_result) {
        Some(m) => m,
        None => {
            return Err(EngineError::NoMove);
        },
    };
    let color = game.game_state.current_state().current_turn;
    if let Err(e) = validate_move(&game.game_state.current_state().board, &chosen, &color) {
        return Err(EngineError::Move(e));
    }
    let ghost g0 = *game;
    let ghost h0 = game.game_state.history@;
    proof {
        assert(chosen == engine_move(*search_result));
    }
    make_move_at(&mut game.game_state, &chosen, now);
    let ghost mid = game.game_state;
    charge_engine_clock(&mut game.game_state, color, search_result.time_ms);
    game.game_state.attach_statistics(
        SearchStatistics {
            depth: search_result.depth,
            nodes: search_result.nodes,
            qnodes: search_result.qnodes,
            time_ms: search_result.time_ms,
            from_book: search_result.from_book,
        },
    );
    proof {
        assert(mid.history@.subrange(0, h0.len() as int) == h0);
        assert forall|i: int| 0 <= i < h0.len() implies game.game_state.history@[i] == h0[i] by {
            assert(mid.history@.subrange(0, h0.len() as int)[i] == h0[i]);
        }
        assert(game.game_state.history@.subrange(0, h0.len() as int) =~= h0);
        let n = game.current();
        let n0 = GameStateAtPointInTime { engine_result: None, ..n };
        assert(crate::game::step(g0.current(), mid.current(), g0.game_state.game_time, chosen, now as int));
        assert(n0.board@ == mid.current().board@);
        assert(crate::game::step(g0.current(), n0, g0.game_state.game_time, chosen, now as int));
        assert(game.wf());
        assert(crate::session::same_seats(game, &g0));
        assert(game.game_state.game_time == charge_clock(clock_after_move(g0.game_state.game_time, color, now as int), color, search_result.time_ms as int));
        assert(crate::game::clock_le(game.game_state.game_time, g0.game_state.game_time));
        assert(game.current().engine_result == Some(statistics(*search_result)));
    }
    Ok(())
}

/// Charges `color` for a search of `time_ms` milliseconds.
fn charge_engine_clock(game_state: &mut GameState, color: Color, time_ms: u64)
    ensures
        final(game_state).history == old(game_state).history,
        final(game_state).game_id == old(game_state).game_id,
        final(game_state).game_time == charge_clock(old(game_state).game_time, color, time_ms as int),
        crate::game::clock_le(final(game_state).game_time, old(game_state).game_time),
{
    let search_seconds: u64 = time_ms / 1000 + if time_ms % 1000 > 0 { 1 } else { 0 };
    let time_to_decrement: u64 = if search_seconds >= 1 { search_seconds } else { 1 };
    proof {
        assert(time_to_decrement == think_seconds(time_ms as int));
    }
    match &mut game_state.game_time {
        Some(t) => {
            match color {
                Color::White => {
                    t.white_seconds_left = if (t.white_seconds_left as u64) > time_to_decrement {
                        (t.white_seconds_left as u64 - time_to_decrement) as usize
                    } else {
                        0
                    };
                },
                Color::Black => {
                    t.black_seconds_left = if (t.black_seconds_left as u64) > time_to_decrement {
                        (t.black_seconds_left as u64 - time_to_decrement) as usize
                    } else {
                        0
                    };
                },
            }
        },
        None => {},
    }
}

impl GameState {
    /// Keeps `stats` with the current snapshot.
    pub fn attach_statistics(&mut self, stats: SearchStatistics)
        requires
            old(self).wf(),
        ensures
            final(self).wf(),
            final(self).game_id == old(self).game_id,
            final(self).game_time == old(self).game_time,
            final(self).history@.len() == old(self).history@.len(),
            forall|i: int| 0 <= i < old(self).history@.len() - 1 ==> #[trigger] final(self).history@[i] == old(self).history@[i],
            final(self).current().engine_result == Some(stats),
            final(self).current().state == old(self).current().state,
            final(self).current().current_turn == old(self).current().current_turn,
            final(self).current().board@ == old(self).current().board@,
            final(self).current().in_check == old(self).current().in_check,
            final(self).current().captured_pieces.white@ == old(self).current().captured_pieces.white@,
            final(self).current().captured_pieces.black@ == old(self).current().captured_pieces.black@,
            final(self).current().captured_pieces.white_points == old(self).current().captured_pieces.white_points,
            final(self).current().captured_pieces.black_points == old(self).current().captured_pieces.black_points,
    {
        let n = self.history.len();
        let mut last = self.history[n - 1].clone();
        last.engine_result = Some(stats);
        let ghost h0 = self.history@;
        self.history.set(n - 1, last);
        proof {
            assert forall|i: int| 0 <= i < self.history@.len() - 1 implies crate::game::alternates(
                #[trigger] self.history@[i],
                self.history@[i + 1],
            ) by {
                assert(crate::game::alternates(h0[i], h0[i + 1]));
            }
            assert forall|i: int| 0 <= i < self.history@.len() implies (#[trigger] self.history@[i]).board.wf() by {
                assert(h0[i].board.wf());
            }
        }
    }
}

} // verus!
