use vstd::prelude::*;

use rand::Rng;

use crate::board::{BoardSetup, PlayerMove};
use crate::check::{validate_move, validation, MoveError};
use crate::game::{move_made, ColorPreference, GameEnding, GameState, GameStateAtPointInTime, State};
use crate::piece::Color;

verus! {

/// The stored record of a game. A seat whose channel dropped keeps its username
/// and holds the `<disconnected>` marker as its channel.
#[derive(Debug)]
pub struct GameRecord {
    pub game_id: String,
    pub white_connection_id: Option<String>,
    pub white_username: Option<String>,
    pub black_connection_id: Option<String>,
    pub black_username: Option<String>,
    pub engine_difficulty: Option<u8>,
    pub game_state: GameState,
    pub created: String,
}

/// The stored record of a user, or of a user's part in one game (`sort_key`
/// `GAME-<game id>`); `winner` names the winning side once the game is decided.
#[derive(Debug)]
pub struct UserRecord {
    pub username: String,
    pub sort_key: String,
    pub connection_id: Option<String>,
    pub winner: Option<String>,
    pub created: String,
}

/// The seat and names behind a channel.
#[derive(Debug)]
pub struct PlayerDetails {
    pub color: Color,
    pub username: String,
    pub opponent_username: Option<String>,
}

pub open spec fn disconnected_marker() -> Seq<char> {
    seq!['<', 'd', 'i', 's', 'c', 'o', 'n', 'n', 'e', 'c', 't', 'e', 'd', '>']
}

/// The channel stored for a seat that is occupied but unreachable.
pub fn disconnected() -> (r: String)
    ensures
        r@ == disconnected_marker(),
{
    proof {
        reveal_strlit("<disconnected>");
    }
    String::from_str("<disconnected>")
}

/// A seat's channel is live: present and not the marker.
pub open spec fn live(ch: Option<String>) -> bool {
    ch is Some && ch->Some_0@ != disconnected_marker()
}

pub fn is_live(ch: &Option<String>) -> (r: bool)
    ensures
        r == live(*ch),
{
    match ch {
        Some(c) => *c != disconnected(),
        None => false,
    }
}

pub open spec fn opt_view(o: Option<String>) -> Option<Seq<char>> {
    match o {
        Some(s) => Some(s@),
        None => None,
    }
}

fn same(o: &Option<String>, s: &String) -> (r: bool)
    ensures
        r == (opt_view(*o) == Some(s@)),
{
    match o {
        Some(x) => *x == *s,
        None => false,
    }
}

impl GameRecord {
    /// A seat with a channel has a username, and the game is well formed.
    pub open spec fn wf(&self) -> bool {
        &&& self.white_connection_id is Some ==> self.white_username is Some
        &&& self.black_connection_id is Some ==> self.black_username is Some
        &&& self.game_state.wf()
    }

    pub open spec fn current(&self) -> GameStateAtPointInTime {
        self.game_state.current()
    }

    /// The seat bound to channel `c`, White's first.
    pub open spec fn seat_of(&self, c: Seq<char>) -> Option<Color> {
        if opt_view(self.white_connection_id) == Some(c) {
            Some(Color::White)
        } else if opt_view(self.black_connection_id) == Some(c) {
            Some(Color::Black)
        } else {
            None
        }
    }
}

/// The seats at creation: the requesting user's channel and name on the seat
/// of `color`, the other seat empty. Order: White channel, White name, Black
/// channel, Black name.
pub open spec fn seats(color: Color, username: Seq<char>, connection_id: Seq<char>) -> (Option<Seq<char>>, Option<Seq<char>>, Option<Seq<char>>, Option<Seq<char>>) {
    if color == Color::White {
        (Some(connection_id), Some(username), None, None)
    } else {
        (None, None, Some(connection_id), Some(username))
    }
}

/// The seat for a preference; `Random` goes by the parity of `nanos`.
pub open spec fn preferred_color(color_preference: ColorPreference, nanos: u32) -> Color {
    match color_preference {
        ColorPreference::White => Color::White,
        ColorPreference::Black => Color::Black,
        ColorPreference::Random => if nanos % 2 == 0 {
            Color::White
        } else {
            Color::Black
        },
    }
}

pub open spec fn seats_view(r: (Option<String>, Option<String>, Option<String>, Option<String>)) -> (Option<Seq<char>>, Option<Seq<char>>, Option<Seq<char>>, Option<Seq<char>>) {
    (opt_view(r.0), opt_view(r.1), opt_view(r.2), opt_view(r.3))
}

/// Relies on chrono's `Utc::now` and `DateTime::timestamp_subsec_nanos`: the
/// nanoseconds of the current second.
#[verifier::external_body]
fn now_subsec_nanos() -> (r: u32) {
    chrono::Utc::now().timestamp_subsec_nanos()
}

/// Seats the creating user by preference, `Random` resolved by the parity of `nanos`.
pub fn determine_player_color_with(color_preference: ColorPreference, username: &str, connection_id: &str, nanos: u32) -> (r: (
    Option<String>,
    Option<String>,
    Option<String>,
    Option<String>,
))
    ensures
        seats_view(r) == seats(preferred_color(color_preference, nanos), username@, connection_id@),
{
    let white = match color_preference {
        ColorPreference::White => true,
        ColorPreference::Black => false,
        ColorPreference::Random => nanos % 2 == 0,
    };
    if white {
        (Some(String::from_str(connection_id)), Some(String::from_str(username)), None, None)
    } else {
        (None, None, Some(String::from_str(connection_id)), Some(String::from_str(username)))
    }
}

/// Seats the creating user by preference; `Random` picks a seat from the clock.
pub fn determine_player_color(color_preference: ColorPreference, username: &str, connection_id: &str) -> (r: (
    Option<String>,
    Option<String>,
    Option<String>,
    Option<String>,
))
    ensures
        exists|nanos: u32| seats_view(r) == seats(preferred_color(color_preference, nanos), username@, connection_id@),
        color_preference != ColorPreference::Random ==> seats_view(r) == seats(
            preferred_color(color_preference, 0),
            username@,
            connection_id@,
        ),
{
    let nanos = now_subsec_nanos();
    determine_player_color_with(color_preference, username, connection_id, nanos)
}

/// Why an action on a game is refused.
#[derive(Clone, Copy, Debug, PartialEq, Eq, Structural)]
pub enum ActionError {
    /// The channel is bound to neither seat.
    NotAParticipant,
    /// Both seats belong to other users.
    GameFull,
    /// The channel already sits on this seat.
    AlreadyConnectedAs(Color),
    /// The game is over.
    GameFinished,
    /// The other seat is not connected.
    OpponentNotPresent,
    /// The other side is to move.
    NotYourTurn,
    /// The move breaks the rules.
    Move(MoveError),
}

/// The outcome of seating `u` on channel `c` in `g`.
pub open spec fn seating(g: &GameRecord, u: Seq<char>, c: Seq<char>) -> Result<(), ActionError> {
    if g.white_username is Some && g.black_username is Some && g.white_username->Some_0@ != u
        && g.black_username->Some_0@ != u {
        Err(ActionError::GameFull)
    } else if opt_view(g.white_connection_id) == Some(c) {
        Err(ActionError::AlreadyConnectedAs(Color::White))
    } else if opt_view(g.black_connection_id) == Some(c) {
        Err(ActionError::AlreadyConnectedAs(Color::Black))
    } else {
        Ok(())
    }
}

/// The seat `u` takes: their own seat when they hold one (White's first),
/// otherwise the empty one.
pub open spec fn seat_taken(g: &GameRecord, u: Seq<char>) -> Color {
    if opt_view(g.white_username) == Some(u) {
        Color::White
    } else if g.white_username is Some {
        Color::Black
    } else if opt_view(g.black_username) == Some(u) {
        Color::Black
    } else {
        Color::White
    }
}

pub open spec fn same_seats(a: &GameRecord, b: &GameRecord) -> bool {
    &&& a.game_id == b.game_id
    &&& a.white_connection_id == b.white_connection_id
    &&& a.white_username == b.white_username
    &&& a.black_connection_id == b.black_connection_id
    &&& a.black_username == b.black_username
    &&& a.engine_difficulty == b.engine_difficulty
    &&& a.created == b.created
}

pub open spec fn same_game(a: &GameRecord, b: &GameRecord) -> bool {
    &&& a.game_id == b.game_id
    &&& a.engine_difficulty == b.engine_difficulty
    &&& a.game_state == b.game_state
    &&& a.created == b.created
}

/// Seats user `username` on channel `connection_id`: back on their own seat, or
/// on the empty one. Fails when both seats belong to others, or when the
/// channel already sits on a seat.
pub fn assign_player_to_existing_or_remaining_slot(game: &mut GameRecord, username: &str, connection_id: &str) -> (r: Result<(), ActionError>)
    requires
        old(game).wf(),
        old(game).white_username is Some || old(game).black_username is Some,
    ensures
        r == seating(old(game), username@, connection_id@),
        r is Err ==> *final(game) == *old(game),
        r is Ok ==> {
            &&& final(game).wf()
            &&& same_game(final(game), old(game))
            &&& if seat_taken(old(game), username@) == Color::White {
                &&& opt_view(final(game).white_username) == Some(username@)
                &&& opt_view(final(game).white_connection_id) == Some(connection_id@)
                &&& final(game).black_username == old(game).black_username
                &&& final(game).black_connection_id == old(game).black_connection_id
            } else {
                &&& opt_view(final(game).black_username) == Some(username@)
                &&& opt_view(final(game).black_connection_id) == Some(connection_id@)
                &&& final(game).white_username == old(game).white_username
                &&& final(game).white_connection_id == old(game).white_connection_id
            }
        },
{
    let user = String::from_str(username);
    let channel = String::from_str(connection_id);
    if game.white_username.is_some() && game.black_username.is_some() && !same(&game.white_username, &user)
        && !same(&game.black_username, &user) {
        return Err(ActionError::GameFull);
    }
    if same(&game.white_connection_id, &channel) {
        return Err(ActionError::AlreadyConnectedAs(Color::White));
    }
    if same(&game.black_connection_id, &channel) {
        return Err(ActionError::AlreadyConnectedAs(Color::Black));
    }
    if same(&game.white_username, &user) {
        game.white_connection_id = Some(channel);
    } else if game.white_username.is_some() {
        game.black_username = Some(user);
        game.black_connection_id = Some(channel);
    } else if same(&game.black_username, &user) {
        game.black_connection_id = Some(channel);
    } else {
        game.white_username = Some(user);
        game.white_connection_id = Some(channel);
    }
    Ok(())
}

pub open spec fn finished(g: &GameRecord) -> bool {
    g.current().state is Finished
}

pub fn is_game_over(game: &GameRecord) -> (r: bool)
    requires
        game.wf(),
    ensures
        r == finished(game),
{
    match game.game_state.current_state().state {
        State::Finished(_) => true,
        _ => false,
    }
}

/// Both seats can act: the engine is always present, humans need live channels.
pub open spec fn both_present(g: &GameRecord) -> bool {
    g.engine_difficulty is Some || (live(g.white_connection_id) && live(g.black_connection_id))
}

fn are_both_players_present(game: &GameRecord) -> (r: bool)
    ensures
        r == both_present(game),
{
    if game.engine_difficulty.is_some() {
        return true;
    }
    is_live(&game.white_connection_id) && is_live(&game.black_connection_id)
}

fn is_turn(game: &GameRecord, player_color: &Color) -> (r: bool)
    requires
        game.wf(),
    ensures
        r == (*player_color == game.current().current_turn),
{
    *player_color == game.game_state.current_state().current_turn
}

/// The rule for a move by `c`: unfinished game, both seats present, `c` to move.
pub open spec fn turn_rule(g: &GameRecord, c: Color) -> Result<(), ActionError> {
    if finished(g) {
        Err(ActionError::GameFinished)
    } else if !both_present(g) {
        Err(ActionError::OpponentNotPresent)
    } else if c != g.current().current_turn {
        Err(ActionError::NotYourTurn)
    } else {
        Ok(())
    }
}

/// A move by `player_color` needs an unfinished game, both seats present, and
/// `player_color` to move.
pub fn can_player_make_a_move(game: &GameRecord, player_color: &Color) -> (r: Result<(), ActionError>)
    requires
        game.wf(),
    ensures
        r == turn_rule(game, *player_color),
{
    if is_game_over(game) {
        return Err(ActionError::GameFinished);
    }
    if !are_both_players_present(game) {
        return Err(ActionError::OpponentNotPresent);
    }
    if !is_turn(game, player_color) {
        return Err(ActionError::NotYourTurn);
    }
    Ok(())
}

/// The seat bound to `connection_id`, with the player's and the opponent's names.
pub fn get_player_details_from_connection_id(game: &GameRecord, connection_id: &str) -> (r: Option<PlayerDetails>)
    requires
        game.wf(),
    ensures
        r is None <==> game.seat_of(connection_id@) is None,
        r is Some ==> {
            let d = r->Some_0;
            &&& Some(d.color) == game.seat_of(connection_id@)
            &&& d.color == Color::White ==> Some(d.username) == game.white_username && d.opponent_username
                == game.black_username
            &&& d.color == Color::Black ==> Some(d.username) == game.black_username && d.opponent_username
                == game.white_username
        },
{
    let channel = String::from_str(connection_id);
    if same(&game.white_connection_id, &channel) {
        let username = match &game.white_username {
            Some(u) => u.clone(),
            None => String::new(),
        };
        return Some(
            PlayerDetails {
                color: Color::White,
                username,
                opponent_username: game.black_username.clone(),
            },
        );
    }
    if same(&game.black_connection_id, &channel) {
        let username = match &game.black_username {
            Some(u) => u.clone(),
            None => String::new(),
        };
        return Some(
            PlayerDetails {
                color: Color::Black,
                username,
                opponent_username: game.white_username.clone(),
            },
        );
    }
    None
}


/// The kinds of action a participant sends about a game.
#[derive(Clone, Copy, Debug, PartialEq, Eq, Structural)]
pub enum ActionKind {
    JoinGame,
    LeaveGame,
    GetGameState,
    MovePiece,
    LoseViaOutOfTime,
    Resign,
    OfferDraw,
}

/// Every action but reading the state is refused once the game is finished.
pub open spec fn action_rule(g: &GameRecord, kind: ActionKind) -> Result<(), ActionError> {
    if finished(g) && kind != ActionKind::GetGameState {
        Err(ActionError::GameFinished)
    } else {
        Ok(())
    }
}

pub fn admit_action(game: &GameRecord, kind: ActionKind) -> (r: Result<(), ActionError>)
    requires
        game.wf(),
    ensures
        r == action_rule(game, kind),
{
    if is_game_over(game) && kind != ActionKind::GetGameState {
        Err(ActionError::GameFinished)
    } else {
        Ok(())
    }
}

/// On a finished game every action other than reading its state is refused as finished.
pub proof fn lemma_finished_game_refuses_actions(g: &GameRecord, kind: ActionKind)
    requires
        g.wf(),
        finished(g),
        kind != ActionKind::GetGameState,
    ensures
        action_rule(g, kind) == Err::<(), ActionError>(ActionError::GameFinished),
{
}

impl GameState {
    /// Appends a copy of the current snapshot, finished with `ending`.
    pub fn finish(&mut self, ending: GameEnding)
        requires
            old(self).wf(),
        ensures
            final(self).wf(),
            final(self).game_id == old(self).game_id,
            final(self).game_time == old(self).game_time,
            final(self).history@.len() == old(self).history@.len() + 1,
            final(self).history@.subrange(0, old(self).history@.len() as int) == old(self).history@,
            final(self).current().state == State::Finished(ending),
            final(self).current().current_turn == old(self).current().current_turn,
            final(self).current().board@ == old(self).current().board@,
    {
        let mut next = self.current_state().clone();
        next.state = State::Finished(ending);
        let ghost h0 = self.history@;
        self.history.push(next);
        proof {
            assert(self.history@.subrange(0, h0.len() as int) =~= h0);
            assert forall|i: int| 0 <= i < self.history@.len() - 1 implies crate::game::alternates(
                #[trigger] self.history@[i],
                self.history@[i + 1],
            ) by {
                if i < h0.len() - 1 {
                    assert(self.history@[i] == h0[i]);
                    assert(self.history@[i + 1] == h0[i + 1]);
                }
            }
            assert forall|i: int| 0 <= i < self.history@.len() implies (#[trigger] self.history@[i]).board.wf() by {
                if i < h0.len() {
                    assert(self.history@[i] == h0[i]);
                }
            }
        }
    }
}

/// The seat of channel `connection_id` resigns: the game is finished by its
/// resignation. Returns the resigning color.
pub fn resign(game: &mut GameRecord, connection_id: &str) -> (r: Result<Color, ActionError>)
    requires
        old(game).wf(),
    ensures
        finished(old(game)) ==> r == Err::<Color, ActionError>(ActionError::GameFinished),
        !finished(old(game)) && old(game).seat_of(connection_id@) is None ==> r == Err::<Color, ActionError>(ActionError::NotAParticipant),
        !finished(old(game)) && old(game).seat_of(connection_id@) is Some ==> r == Ok::<Color, ActionError>(old(game).seat_of(connection_id@)->Some_0),
        r is Err ==> *final(game) == *old(game),
        r is Ok ==> {
            &&& Some(r->Ok_0) == old(game).seat_of(connection_id@)
            &&& !finished(old(game))
            &&& final(game).wf()
            &&& same_seats(final(game), old(game))
            &&& final(game).current().state == State::Finished(GameEnding::Resignation(r->Ok_0))
            &&& final(game).game_state.history@.subrange(0, old(game).game_state.history@.len() as int) == old(game).game_state.history@
            &&& final(game).game_state.game_time == old(game).game_state.game_time
        },
{
    if let Err(e) = admit_action(game, ActionKind::Resign) {
        return Err(e);
    }
    let color = match get_player_details_from_connection_id(game, connection_id) {
        Some(d) => d.color,
        None => {
            return Err(ActionError::NotAParticipant);
        },
    };
    game.game_state.finish(GameEnding::Resignation(color));
    Ok(color)
}

/// The seat of channel `connection_id` declares its own flag fall: the game is
/// finished on time and that seat's counter is set to zero. Returns the losing color.
pub fn lose_via_out_of_time(game: &mut GameRecord, connection_id: &str) -> (r: Result<Color, ActionError>)
    requires
        old(game).wf(),
    ensures
        finished(old(game)) ==> r == Err::<Color, ActionError>(ActionError::GameFinished),
        !finished(old(game)) && old(game).seat_of(connection_id@) is None ==> r == Err::<Color, ActionError>(ActionError::NotAParticipant),
        !finished(old(game)) && old(game).seat_of(connection_id@) is Some ==> r == Ok::<Color, ActionError>(old(game).seat_of(connection_id@)->Some_0),
        r is Err ==> *final(game) == *old(game),
        r is Ok ==> {
            &&& Some(r->Ok_0) == old(game).seat_of(connection_id@)
            &&& final(game).wf()
            &&& same_seats(final(game), old(game))
            &&& final(game).current().state == State::Finished(GameEnding::OutOfTime(r->Ok_0))
            &&& final(game).game_state.history@.subrange(0, old(game).game_state.history@.len() as int) == old(game).game_state.history@
            &&& match old(game).game_state.game_time {
                Some(t) => final(game).game_state.game_time == Some(
                    if r->Ok_0 == Color::White {
                        crate::game::GameTime { white_seconds_left: 0, ..t }
                    } else {
                        crate::game::GameTime { black_seconds_left: 0, ..t }
                    },
                ),
                None => final(game).game_state.game_time is None,
            }
        },
        crate::game::clock_le(final(game).game_state.game_time, old(game).game_state.game_time),
{
    if let Err(e) = admit_action(game, ActionKind::LoseViaOutOfTime) {
        return Err(e);
    }
    let color = match get_player_details_from_connection_id(game, connection_id) {
        Some(d) => d.color,
        None => {
            return Err(ActionError::NotAParticipant);
        },
    };
    game.game_state.finish(GameEnding::OutOfTime(color));
    match &mut game.game_state.game_time {
        Some(t) => {
            match color {
                Color::White => t.white_seconds_left = 0,
                Color::Black => t.black_seconds_left = 0,
            }
        },
        None => {},
    }
    Ok(color)
}

/// The outcome of channel `c` moving `m` in `g`.
pub open spec fn move_rule(g: &GameRecord, c: Seq<char>, m: PlayerMove) -> Result<(), ActionError> {
    if finished(g) {
        Err(ActionError::GameFinished)
    } else if g.seat_of(c) is None {
        Err(ActionError::NotAParticipant)
    } else if turn_rule(g, g.seat_of(c)->Some_0) is Err {
        turn_rule(g, g.seat_of(c)->Some_0)
    } else if validation(g.current().board@, m, g.seat_of(c)->Some_0) is Err {
        Err(ActionError::Move(validation(g.current().board@, m, g.seat_of(c)->Some_0)->Err_0))
    } else {
        Ok(())
    }
}

/// The seat of channel `connection_id` plays `player_move` at instant `now`: the
/// game must be unfinished, the channel seated, both seats present, the seat to
/// move, and the move valid. Then the move is made.
pub fn move_piece_at(game: &mut GameRecord, connection_id: &str, player_move: &PlayerMove, now: i64) -> (r: Result<(), ActionError>)
    requires
        old(game).wf(),
        old(game).current().board@.move_count < usize::MAX - 1,
        old(game).current().captured_pieces.white_points <= u16::MAX - 9,
        old(game).current().captured_pieces.black_points <= u16::MAX - 9,
    ensures
        r == move_rule(old(game), connection_id@, *player_move),
        r is Err ==> *final(game) == *old(game),
        r is Ok ==> {
            &&& final(game).wf()
            &&& move_made(old(game).game_state, final(game).game_state, *player_move, now as int)
            &&& final(game).white_connection_id == old(game).white_connection_id
            &&& final(game).black_connection_id == old(game).black_connection_id
        },
        crate::game::clock_le(final(game).game_state.game_time, old(game).game_state.game_time),
{
    if let Err(e) = admit_action(game, ActionKind::MovePiece) {
        return Err(e);
    }
    let color = match get_player_details_from_connection_id(game, connection_id) {
        Some(d) => d.color,
        None => {
            return Err(ActionError::NotAParticipant);
        },
    };
    if let Err(e) = can_player_make_a_move(game, &color) {
        return Err(e);
    }
    if let Err(e) = validate_move(&game.game_state.current_state().board, player_move, &color) {
        return Err(ActionError::Move(e));
    }
    crate::game::make_move_at(&mut game.game_state, player_move, now);
    Ok(())
}

/// Marks the seat of `username` (White's first) as disconnected; a user on
/// neither seat changes nothing. Returns the other seat's channel when it is live, for notice.
pub fn mark_user_as_disconnected(game: &mut GameRecord, username: &str) -> (r: Option<String>)
    requires
        old(game).wf(),
    ensures
        final(game).wf(),
        same_game(final(game), old(game)),
        final(game).white_username == old(game).white_username,
        final(game).black_username == old(game).black_username,
        opt_view(old(game).white_username) == Some(username@) ==> {
            &&& opt_view(final(game).white_connection_id) == Some(disconnected_marker())
            &&& final(game).black_connection_id == old(game).black_connection_id
            &&& r == (if live(old(game).black_connection_id) { old(game).black_connection_id } else { None })
        },
        opt_view(old(game).white_username) != Some(username@) && opt_view(old(game).black_username) == Some(username@) ==> {
            &&& opt_view(final(game).black_connection_id) == Some(disconnected_marker())
            &&& final(game).white_connection_id == old(game).white_connection_id
            &&& r == (if live(old(game).white_connection_id) { old(game).white_connection_id } else { None })
        },
        opt_view(old(game).white_username) != Some(username@) && opt_view(old(game).black_username) != Some(username@) ==> {
            &&& *final(game) == *old(game)
            &&& r is None
        },
{
    let user = String::from_str(username);
    if same(&game.white_username, &user) {
        game.white_connection_id = Some(disconnected());
        if is_live(&game.black_connection_id) {
            game.black_connection_id.clone()
        } else {
            None
        }
    } else if same(&game.black_username, &user) {
        game.black_connection_id = Some(disconnected());
        if is_live(&game.white_connection_id) {
            game.white_connection_id.clone()
        } else {
            None
        }
    } else {
        None
    }
}

/// The color that wins a decided ending: the opposite of the side that was
/// mated, resigned or ran out of time.
pub open spec fn winner_of(s: State) -> Option<Color> {
    match s {
        State::Finished(GameEnding::Checkmate(l)) => Some(l.opposite()),
        State::Finished(GameEnding::Resignation(l)) => Some(l.opposite()),
        State::Finished(GameEnding::OutOfTime(l)) => Some(l.opposite()),
        _ => None,
    }
}

/// The winning color's name for the user records, once the game is decided.
pub fn winner(game_state: &GameState) -> (r: Option<String>)
    requires
        game_state.wf(),
    ensures
        opt_view(r) == match winner_of(game_state.current().state) {
            Some(c) => Some(c.name()),
            None => None,
        },
{
    match game_state.current_state().state {
        State::Finished(GameEnding::Checkmate(l)) | State::Finished(GameEnding::Resignation(l)) | State::Finished(
            GameEnding::OutOfTime(l),
        ) => Some(l.opponent_color().to_string()),
        _ => None,
    }
}

/// The channels to send a game update to: the acting channel when
/// `current_player`, otherwise the other seats' live channels; no one but the
/// acting player in a game against the engine.
pub fn notification_targets(game: &GameRecord, current_user_connection_id: &str, current_player: bool) -> (r: Vec<String>)
    ensures
        !current_player && game.engine_difficulty is Some ==> r@.len() == 0,
        forall|i: int| 0 <= i < r@.len() ==> {
            &&& live(Some(#[trigger] r@[i]))
            &&& (opt_view(game.white_connection_id) == Some(r@[i]@) || opt_view(game.black_connection_id) == Some(r@[i]@))
            &&& (r@[i]@ == current_user_connection_id@) == current_player
        },
        current_player || game.engine_difficulty is None ==> {
            &&& (live(game.white_connection_id) && ((game.white_connection_id->Some_0@ == current_user_connection_id@) == current_player)) ==> exists|i: int| 0 <= i < r@.len() && r@[i]@ == game.white_connection_id->Some_0@
            &&& (live(game.black_connection_id) && ((game.black_connection_id->Some_0@ == current_user_connection_id@) == current_player)) ==> exists|i: int| 0 <= i < r@.len() && r@[i]@ == game.black_connection_id->Some_0@
        },
{
    let mut targets: Vec<String> = Vec::new();
    if !current_player && game.engine_difficulty.is_some() {
        return targets;
    }
    let me = String::from_str(current_user_connection_id);
    match &game.white_connection_id {
        Some(w) => {
            if ((*w == me) == current_player) && *w != disconnected() {
                targets.push(w.clone());
                proof {
                    assert(targets@[0]@ == w@);
                }
            }
        },
        None => {},
    }
    let ghost after_white = targets@;
    match &game.black_connection_id {
        Some(b) => {
            if ((*b == me) == current_player) && *b != disconnected() {
                targets.push(b.clone());
                proof {
                    assert(targets@[targets@.len() - 1]@ == b@);
                    assert(targets@.len() == after_white.len() + 1);
                    if after_white.len() > 0 {
                        assert(targets@[0] == after_white[0]);
                    }
                }
            }
        },
        None => {},
    }
    targets
}


impl GameState {
    /// Starts a game that has not started; any other phase stays.
    pub fn start_if_not_started(&mut self)
        requires
            old(self).wf(),
        ensures
            final(self).wf(),
            final(self).game_id == old(self).game_id,
            final(self).game_time == old(self).game_time,
            final(self).history@.len() == old(self).history@.len(),
            forall|i: int| 0 <= i < old(self).history@.len() - 1 ==> #[trigger] final(self).history@[i] == old(self).history@[i],
            final(self).current().state == (if old(self).current().state == State::NotStarted {
                State::InProgress
            } else {
                old(self).current().state
            }),
            final(self).current().current_turn == old(self).current().current_turn,
            final(self).current().board@ == old(self).current().board@,
    {
        let n = self.history.len();
        if self.history[n - 1].state == State::NotStarted {
            let mut last = self.history[n - 1].clone();
            last.state = State::InProgress;
            let ghost h0 = self.history@;
            self.history.set(n - 1, last);
            proof {
                assert forall|i: int| 0 <= i < self.history@.len() - 1 implies crate::game::alternates(
                    #[trigger] self.history@[i],
                    self.history@[i + 1],
                ) by {
                    assert(crate::game::alternates(h0[i], h0[i + 1]));
                }
                assert forall|i: int| 0 <= i < self.history@.len() implies (#[trigger] self.history@[i]).board.wf() by {
                    assert(h0[i].board.wf());
                }
            }
        }
    }
}

/// Once both seats are present (or the engine holds one), records `now` as the
/// moment both were seated and starts a game that has not started.
pub fn check_if_both_players_just_joined_at(game_record: &mut GameRecord, now: i64)
    requires
        old(game_record).wf(),
    ensures
        final(game_record).wf(),
        final(game_record).white_connection_id == old(game_record).white_connection_id,
        final(game_record).black_connection_id == old(game_record).black_connection_id,
        final(game_record).white_username == old(game_record).white_username,
        final(game_record).black_username == old(game_record).black_username,
        final(game_record).engine_difficulty == old(game_record).engine_difficulty,
        final(game_record).game_id == old(game_record).game_id,
        final(game_record).created == old(game_record).created,
        final(game_record).game_state.game_id == old(game_record).game_state.game_id,
        final(game_record).game_state.history@.len() == old(game_record).game_state.history@.len(),
        forall|i: int|
            0 <= i < old(game_record).game_state.history@.len() - 1 ==> #[trigger] final(game_record).game_state.history@[i]
                == old(game_record).game_state.history@[i],
        final(game_record).current().current_turn == old(game_record).current().current_turn,
        final(game_record).current().board@ == old(game_record).current().board@,
        both_present(old(game_record)) ==> {
            &&& final(game_record).current().state == (if old(game_record).current().state == State::NotStarted {
                State::InProgress
            } else {
                old(game_record).current().state
            })
            &&& final(game_record).game_state.game_time == match old(game_record).game_state.game_time {
                Some(t) => Some(crate::game::GameTime { both_players_last_connected_at: Some(now), ..t }),
                None => None,
            }
        },
        !both_present(old(game_record)) ==> final(game_record).game_state == old(game_record).game_state,
        crate::game::clock_le(final(game_record).game_state.game_time, old(game_record).game_state.game_time),
{
    if are_both_players_present(game_record) {
        match &mut game_record.game_state.game_time {
            Some(t) => t.both_players_last_connected_at = Some(now),
            None => {},
        }
        game_record.game_state.start_if_not_started();
    }
}

/// As `check_if_both_players_just_joined_at`, at the current time.
pub fn check_if_both_players_just_joined(game_record: &mut GameRecord)
    requires
        old(game_record).wf(),
    ensures
        final(game_record).wf(),
        final(game_record).white_connection_id == old(game_record).white_connection_id,
        final(game_record).black_connection_id == old(game_record).black_connection_id,
        final(game_record).game_state.history@.len() == old(game_record).game_state.history@.len(),
        both_present(old(game_record)) ==> final(game_record).current().state == (if old(game_record).current().state == State::NotStarted {
            State::InProgress
        } else {
            old(game_record).current().state
        }),
        !both_present(old(game_record)) ==> final(game_record).game_state == old(game_record).game_state,
        crate::game::clock_le(final(game_record).game_state.game_time, old(game_record).game_state.game_time),
{
    let now = crate::game::unix_now();
    check_if_both_players_just_joined_at(game_record, now);
}

/// The outcome of `username` joining `g` on channel `connection_id`.
pub open spec fn join_rule(g: &GameRecord, username: Seq<char>, connection_id: Seq<char>) -> Result<(), ActionError> {
    if finished(g) {
        Err(ActionError::GameFinished)
    } else {
        seating(g, username, connection_id)
    }
}

/// User `username` joins (or rejoins) on channel `connection_id` at instant
/// `now`: seated as `assign_player_to_existing_or_remaining_slot` says, then the
/// game starts once both seats are present.
pub fn join_game_at(game: &mut GameRecord, username: &str, connection_id: &str, now: i64) -> (r: Result<Color, ActionError>)
    requires
        old(game).wf(),
        old(game).white_username is Some || old(game).black_username is Some,
    ensures
        match r {
            Ok(_) => join_rule(old(game), username@, connection_id@) is Ok,
            Err(e) => join_rule(old(game), username@, connection_id@) == Err::<(), ActionError>(e),
        },
        r is Err ==> *final(game) == *old(game),
        r is Ok ==> {
            &&& r->Ok_0 == seat_taken(old(game), username@)
            &&& final(game).wf()
            &&& r->Ok_0 == Color::White ==> opt_view(final(game).white_connection_id) == Some(connection_id@)
                && opt_view(final(game).white_username) == Some(username@)
                && final(game).black_connection_id == old(game).black_connection_id
                && final(game).black_username == old(game).black_username
            &&& r->Ok_0 == Color::Black ==> opt_view(final(game).black_connection_id) == Some(connection_id@)
                && opt_view(final(game).black_username) == Some(username@)
                && final(game).white_connection_id == old(game).white_connection_id
                && final(game).white_username == old(game).white_username
            &&& final(game).game_id == old(game).game_id
            &&& final(game).engine_difficulty == old(game).engine_difficulty
            &&& final(game).game_state.game_id == old(game).game_state.game_id
            &&& final(game).game_state.history@.len() == old(game).game_state.history@.len()
            &&& forall|i: int|
                0 <= i < old(game).game_state.history@.len() - 1 ==> #[trigger] final(game).game_state.history@[i]
                    == old(game).game_state.history@[i]
            &&& final(game).current().current_turn == old(game).current().current_turn
            &&& final(game).current().board@ == old(game).current().board@
            &&& final(game).current().state == (if both_present(final(game)) && old(game).current().state
                == State::NotStarted {
                State::InProgress
            } else {
                old(game).current().state
            })
            &&& final(game).game_state.game_time == (if both_present(final(game)) {
                match old(game).game_state.game_time {
                    Some(t) => Some(crate::game::GameTime { both_players_last_connected_at: Some(now), ..t }),
                    None => None,
                }
            } else {
                old(game).game_state.game_time
            })
        },
{
    if let Err(e) = admit_action(game, ActionKind::JoinGame) {
        return Err(e);
    }
    let seat_white = {
        let user = String::from_str(username);
        same(&game.white_username, &user) || (game.white_username.is_none() && !same(&game.black_username, &user))
    };
    if let Err(e) = assign_player_to_existing_or_remaining_slot(game, username, connection_id) {
        return Err(e);
    }
    check_if_both_players_just_joined_at(game, now);
    if seat_white {
        Ok(Color::White)
    } else {
        Ok(Color::Black)
    }
}

/// Marks the seat of `color` as disconnected. Returns the other seat's channel
/// when it is live, for notice.
pub fn disconnect_seat(game: &mut GameRecord, color: Color) -> (r: Option<String>)
    requires
        old(game).wf(),
        color == Color::White ==> old(game).white_username is Some,
        color == Color::Black ==> old(game).black_username is Some,
    ensures
        final(game).wf(),
        same_game(final(game), old(game)),
        final(game).white_username == old(game).white_username,
        final(game).black_username == old(game).black_username,
        color == Color::White ==> {
            &&& opt_view(final(game).white_connection_id) == Some(disconnected_marker())
            &&& final(game).black_connection_id == old(game).black_connection_id
            &&& r == (if live(old(game).black_connection_id) { old(game).black_connection_id } else { None })
        },
        color == Color::Black ==> {
            &&& opt_view(final(game).black_connection_id) == Some(disconnected_marker())
            &&& final(game).white_connection_id == old(game).white_connection_id
            &&& r == (if live(old(game).white_connection_id) { old(game).white_connection_id } else { None })
        },
{
    match color {
        Color::White => {
            game.white_connection_id = Some(disconnected());
            if is_live(&game.black_connection_id) {
                game.black_connection_id.clone()
            } else {
                None
            }
        },
        Color::Black => {
            game.black_connection_id = Some(disconnected());
            if is_live(&game.white_connection_id) {
                game.white_connection_id.clone()
            } else {
                None
            }
        },
    }
}

/// The channel of `connection_id` leaves: its seat is marked disconnected. Returns
/// the other seat's live channel, for notice.
pub fn leave_game(game: &mut GameRecord, connection_id: &str) -> (r: Result<Option<String>, ActionError>)
    requires
        old(game).wf(),
    ensures
        finished(old(game)) ==> r == Err::<Option<String>, ActionError>(ActionError::GameFinished),
        !finished(old(game)) && old(game).seat_of(connection_id@) is None ==> r == Err::<Option<String>, ActionError>(ActionError::NotAParticipant),
        !finished(old(game)) && old(game).seat_of(connection_id@) is Some ==> r is Ok,
        r is Err ==> *final(game) == *old(game),
        r is Ok ==> {
            &&& final(game).wf()
            &&& same_game(final(game), old(game))
            &&& final(game).white_username == old(game).white_username
            &&& final(game).black_username == old(game).black_username
            &&& old(game).seat_of(connection_id@) == Some(Color::White) ==> {
                &&& opt_view(final(game).white_connection_id) == Some(disconnected_marker())
                &&& final(game).black_connection_id == old(game).black_connection_id
                &&& r->Ok_0 == (if live(old(game).black_connection_id) { old(game).black_connection_id } else { None })
            }
            &&& old(game).seat_of(connection_id@) == Some(Color::Black) ==> {
                &&& opt_view(final(game).black_connection_id) == Some(disconnected_marker())
                &&& final(game).white_connection_id == old(game).white_connection_id
                &&& r->Ok_0 == (if live(old(game).white_connection_id) { old(game).white_connection_id } else { None })
            }
        },
{
    if let Err(e) = admit_action(game, ActionKind::LeaveGame) {
        return Err(e);
    }
    let color = match get_player_details_from_connection_id(game, connection_id) {
        Some(d) => d.color,
        None => {
            return Err(ActionError::NotAParticipant);
        },
    };
    Ok(disconnect_seat(game, color))
}

/// An ASCII letter or digit.
pub open spec fn is_alphanumeric(c: char) -> bool {
    ('0' <= c <= '9') || ('a' <= c <= 'z') || ('A' <= c <= 'Z')
}

/// The length of a generated game id.
pub const GAME_ID_LENGTH: usize = 4;

/// Relies on rand's `Alphanumeric` distribution sampled `len` times from the
/// thread-local generator: `len` ASCII letters or digits.
#[verifier::external_body]
fn generate_id(len: usize) -> (r: String)
    ensures
        r@.len() == len,
        forall|i: int| 0 <= i < len ==> is_alphanumeric(#[trigger] r@[i]),
{
    rand::rng().sample_iter(&rand::distr::Alphanumeric).take(len).map(char::from).collect()
}

/// Relies on chrono's `Utc::now` and `DateTime::to_rfc3339`: the current instant as RFC 3339 text.
#[verifier::external_body]
fn now_rfc3339() -> (r: String) {
    chrono::Utc::now().to_rfc3339()
}

/// A new game record: the creating user seated by preference, the other seat
/// empty (or the engine's when `engine_difficulty` is set), a fresh game state.
/// Without a `game_id` a random id of `GAME_ID_LENGTH` letters and digits is drawn.
pub fn create_game(
    game_id: Option<&str>,
    username: &str,
    board_setup: Option<BoardSetup>,
    color_preference: ColorPreference,
    engine_difficulty: Option<u8>,
    seconds_per_player: Option<usize>,
    connection_id: &str,
) -> (r: GameRecord)
    requires
        match board_setup {
            Some(s) => s.valid(),
            None => true,
        },
    ensures
        r.wf(),
        match game_id {
            Some(id) => r.game_id@ == id@,
            None => r.game_id@.len() == GAME_ID_LENGTH && forall|i: int| 0 <= i < GAME_ID_LENGTH ==> is_alphanumeric(#[trigger] r.game_id@[i]),
        },
        exists|nanos: u32| seats_view((r.white_connection_id, r.white_username, r.black_connection_id, r.black_username)) == seats(
            preferred_color(color_preference, nanos),
            username@,
            connection_id@,
        ),
        r.engine_difficulty == engine_difficulty,
        r.game_state.history@.len() == 1,
        r.current().state == State::NotStarted,
        r.current().current_turn == Color::White,
        r.current().in_check is None,
        (match board_setup { Some(s) => s, None => BoardSetup::Standard }).produces(r.current().board@),
        r.current().captured_pieces.white@.len() == 0,
        r.current().captured_pieces.black@.len() == 0,
        r.current().captured_pieces.white_points == 0,
        r.current().captured_pieces.black_points == 0,
        r.current().engine_result is None,
        r.game_state.game_id@ == r.game_id@,
        r.game_state.game_time == (match seconds_per_player {
            Some(s) => Some(
                crate::game::GameTime {
                    both_players_last_connected_at: None,
                    last_move_at: None,
                    white_seconds_left: s,
                    black_seconds_left: s,
                },
            ),
            None => None,
        }),
{
    let id = match game_id {
        Some(id) => String::from_str(id),
        None => generate_id(GAME_ID_LENGTH),
    };
    let setup = match board_setup {
        Some(s) => s,
        None => BoardSetup::Standard,
    };
    let game_state = GameState::new(id.clone(), &setup, seconds_per_player);
    let (white_connection_id, white_username, black_connection_id, black_username) = determine_player_color(
        color_preference,
        username,
        connection_id,
    );
    GameRecord {
        game_id: id,
        white_connection_id,
        white_username,
        black_connection_id,
        black_username,
        engine_difficulty,
        game_state,
        created: now_rfc3339(),
    }
}

/// The sort key of a user's record for a game: `GAME-` and the game id.
pub open spec fn game_sort_key(game_id: Seq<char>) -> Seq<char> {
    seq!['G', 'A', 'M', 'E', '-'] + game_id
}

/// A user's record for a game, bound to channel `connection_id`, undecided.
pub fn create_user_game(game_id: &str, username: &str, connection_id: &str) -> (r: UserRecord)
    ensures
        r.username@ == username@,
        r.sort_key@ == game_sort_key(game_id@),
        opt_view(r.connection_id) == Some(connection_id@),
        r.winner is None,
{
    proof {
        reveal_strlit("GAME-");
    }
    let sort_key = String::from_str("GAME-").concat(game_id);
    UserRecord {
        username: String::from_str(username),
        sort_key,
        connection_id: Some(String::from_str(connection_id)),
        winner: None,
        created: now_rfc3339(),
    }
}

} // verus!
