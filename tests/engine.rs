use chess_core::api::is_on_board;
use chess_core::board::{pos, Board, BoardSetup, PlayerMove};
use chess_core::engine::{apply_engine_result, get_engine_move_from_search_result, EngineError, SearchResult, Square};
use chess_core::game::{handle_engine_think_time, ColorPreference, GameState, GameTime};
use chess_core::piece::{Color, PieceType};
use chess_core::session::{create_game, notification_targets, join_game_at};

fn result(from: Option<Square>, to: Option<Square>, time_ms: u64) -> SearchResult {
    SearchResult { best_move_from: from, best_move_to: to, depth: 5, nodes: 100, qnodes: 10, time_ms, from_book: false }
}

#[test]
fn engine_move_is_one_based() {
    let r = result(Some(Square { file: 4, rank: 6 }), Some(Square { file: 4, rank: 4 }), 0);
    assert_eq!(
        get_engine_move_from_search_result(&r),
        Some(PlayerMove { from: pos(7, 5), to: pos(5, 5) })
    );
    assert_eq!(get_engine_move_from_search_result(&result(None, None, 0)), None);
}

#[test]
fn engine_plays_its_move_and_pays_its_time() {
    let mut game = create_game(Some("e1"), "human", None, ColorPreference::Black, Some(3), Some(60), "c1");
    assert!(join_game_at(&mut game, "human", "c2", 100).is_ok());
    let r = result(Some(Square { file: 4, rank: 1 }), Some(Square { file: 4, rank: 3 }), 1500);
    assert_eq!(apply_engine_result(&mut game, &r, 110), Ok(()));
    let s = game.game_state.current_state();
    assert_eq!(s.current_turn, Color::Black);
    assert_eq!(s.board.get_piece_at_position(&pos(4, 5)).unwrap().piece_type, PieceType::Pawn);
    assert_eq!(s.engine_result.unwrap().nodes, 100);
    let t = game.game_state.game_time.unwrap();
    assert_eq!(t.white_seconds_left, 60 - 10 - 2);
    assert_eq!(apply_engine_result(&mut game, &r, 120), Err(EngineError::NotEngineTurn));
}

#[test]
fn engine_think_time_rounds_up() {
    let mut g = GameState::new("g".to_string(), &BoardSetup::Standard, Some(10));
    handle_engine_think_time(&mut g, 1);
    assert_eq!(g.game_time.unwrap().white_seconds_left, 9);
    handle_engine_think_time(&mut g, 2001);
    assert_eq!(g.game_time.unwrap().white_seconds_left, 6);
    handle_engine_think_time(&mut g, 60000);
    let t: GameTime = g.game_time.unwrap();
    assert_eq!(t.white_seconds_left, 0);
    assert_eq!(t.black_seconds_left, 10);
}

#[test]
fn all_pieces_of_one_side() {
    let b = Board::new(&BoardSetup::Standard);
    let white = b.get_all_pieces(Some(Color::White));
    assert_eq!(white.len(), 16);
    assert!(white.iter().all(|(p, q)| p.color == Color::White && q.rank.0 <= 2));
    assert_eq!(b.get_all_pieces(None).len(), 32);
}

#[test]
fn pushes_go_to_the_other_live_seat() {
    let mut game = create_game(Some("n1"), "u1", None, ColorPreference::White, None, None, "c1");
    assert!(join_game_at(&mut game, "u2", "c2", 0).is_ok());
    assert_eq!(notification_targets(&game, "c1", false), vec!["c2".to_string()]);
    assert_eq!(notification_targets(&game, "c1", true), vec!["c1".to_string()]);
}

#[test]
fn colors_by_name() {
    assert_eq!(Color::from_str("White"), Some(Color::White));
    assert_eq!(Color::from_str("BLACK"), Some(Color::Black));
    assert_eq!(Color::from_str("red"), None);
    assert_eq!(Color::Black.to_string(), "black");
}

#[test]
fn eight_by_eight_indices() {
    assert!(is_on_board(0, 7));
    assert!(!is_on_board(8, 0));
    assert!(!is_on_board(-1, 3));
}

#[test]
fn engine_result_errors() {
    let mut game = create_game(Some("e2"), "human", None, ColorPreference::Black, Some(3), None, "c1");
    assert_eq!(apply_engine_result(&mut game, &result(None, Some(Square { file: 4, rank: 3 }), 10), 0), Err(EngineError::NoMove));
    let illegal = result(Some(Square { file: 4, rank: 1 }), Some(Square { file: 4, rank: 4 }), 10);
    assert_eq!(
        apply_engine_result(&mut game, &illegal, 0),
        Err(EngineError::Move(chess_core::check::MoveError::IllegalForPiece))
    );
    assert_eq!(game.game_state.history.len(), 1);
}
