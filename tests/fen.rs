use chess_core::board::{Board, BoardSetup};
use chess_core::fen::game_state_to_fen;
use chess_core::game::{CapturedPieces, GameStateAtPointInTime, State};
use chess_core::piece::Color;

#[test]
fn test_generate_fen_starting_position() {
    let board = Board::new(&BoardSetup::Standard);
    let game_state = GameStateAtPointInTime {
        state: State::NotStarted,
        current_turn: Color::White,
        in_check: None,
        board,
        captured_pieces: CapturedPieces {
            white: Vec::new(),
            black: Vec::new(),
            white_points: 0,
            black_points: 0,
        },
        engine_result: None,
    };

    let fen = game_state_to_fen(&game_state);
    assert_eq!(
        fen,
        "rnbqkbnr/pppppppp/8/8/8/8/PPPPPPPP/RNBQKBNR w KQkq - 0 1"
    );
}
