use vstd::prelude::*;

use crate::board::{BoardSetup, PlayerMove};
use crate::game::ColorPreference;
use crate::session::ActionError;

verus! {

/// An action sent by a participant.
#[derive(Debug)]
pub enum PlayerAction {
    CreateGame {
        username: String,
        game_id: Option<String>,
        board_setup: Option<BoardSetup>,
        color_preference: ColorPreference,
        engine_difficulty: Option<u8>,
        seconds_per_player: Option<usize>,
    },
    JoinGame { username: String, game_id: String },
    LeaveGame { game_id: String },
    GetGameState { game_id: String },
    MovePiece { game_id: String, player_move: PlayerMove },
    Heartbeat,
    LoseViaOutOfTime { game_id: String },
    Resign { game_id: String },
    OfferDraw { game_id: String },
}

/// An inbound message: a route the core ignores, and the action.
#[derive(Debug)]
pub struct GameRequest {
    pub route: String,
    pub data: PlayerAction,
}

#[derive(Clone, Copy, Debug, PartialEq, Eq, Structural)]
pub enum ApiMessageType {
    Info,
    Warning,
    Error,
    Success,
}

#[derive(Debug)]
pub struct ApiMessage {
    pub message: String,
    pub message_type: ApiMessageType,
}

impl ApiMessage {
    /// An error message with the given text.
    pub fn error(message: String) -> (r: ApiMessage)
        ensures
            r.message@ == message@,
            r.message_type == ApiMessageType::Error,
    {
        ApiMessage { message, message_type: ApiMessageType::Error }
    }
}

/// The response sent to the acting channel and pushed to the other seat.
#[derive(Debug)]
pub struct ApiResponse<T> {
    pub status_code: u16,
    pub connection_id: Option<String>,
    pub messages: Vec<ApiMessage>,
    pub data: Option<T>,
}

/// A plain status and body.
#[derive(Debug)]
pub struct CustomResponse {
    pub status_code: i32,
    pub body: String,
}

/// Every refusal of an action is a client error.
pub open spec fn status_of(e: ActionError) -> u16 {
    400
}

pub fn status_code(e: &ActionError) -> (r: u16)
    ensures
        r == status_of(*e),
{
    400
}

impl ActionError {
    /// The text reported to the acting channel.
    pub fn message(&self) -> &'static str {
        match self {
            ActionError::NotAParticipant => "You are not a player in this game",
            ActionError::GameFull => "Game already has two players",
            ActionError::AlreadyConnectedAs(crate::piece::Color::White) => "You are already connected to this game as white",
            ActionError::AlreadyConnectedAs(crate::piece::Color::Black) => "You are already connected to this game as black",
            ActionError::GameFinished => "Game is finished",
            ActionError::OpponentNotPresent => "Both players must be connected to make a move",
            ActionError::NotYourTurn => "It is not your turn",
            ActionError::Move(e) => e.message(),
        }
    }
}

/// Whether row and column indices lie on an 8×8 board.
pub fn is_on_board(row: isize, col: isize) -> (r: bool)
    ensures
        r == (0 <= row < 8 && 0 <= col < 8),
{
    row >= 0 && row < 8 && col >= 0 && col < 8
}

} // verus!
