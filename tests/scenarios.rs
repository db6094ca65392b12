use chess_core::board::{pos, Board, BoardDimensions, BoardSetup, PlayerMove};
use chess_core::check::{validate_move, MoveError};
use chess_core::game::{
    make_move, make_move_at, CapturedPieces, GameEnding, GameState, GameStateAtPointInTime, GameTime, State,
};
use chess_core::piece::{Color, Piece, PieceType};
use chess_core::session::{
    create_game, join_game_at, leave_game, lose_via_out_of_time, move_piece_at, resign, winner, ActionError,
};

/// A move in (file, rank) coordinates.
fn mv(ff: usize, fr: usize, tf: usize, tr: usize) -> PlayerMove {
    PlayerMove { from: pos(fr, ff), to: pos(tr, tf) }
}

fn play(g: &mut GameState, m: PlayerMove) {
    let side = g.current_state().current_turn;
    assert_eq!(validate_move(&g.current_state().board, &m, &side), Ok(()));
    make_move_at(g, &m, 0);
}

fn piece_at(g: &GameState, file: usize, rank: usize) -> Option<Piece> {
    g.current_state().board.get_piece_at_position(&pos(rank, file))
}

fn empty_board() -> Board {
    Board { squares: vec![vec![None; 8]; 8], move_count: 0 }
}

fn put(b: &mut Board, file: usize, rank: usize, t: PieceType, c: Color) {
    b.set_piece_at_position(&pos(rank, file), Some(Piece::new(t, c)));
}

fn game_with(board: Board, turn: Color) -> GameState {
    GameState {
        game_id: "g".to_string(),
        game_time: None,
        history: vec![GameStateAtPointInTime {
            state: State::InProgress,
            current_turn: turn,
            in_check: None,
            board,
            captured_pieces: CapturedPieces::new(),
            engine_result: None,
        }],
    }
}

#[test]
fn fools_mate_ends_in_checkmate() {
    let mut g = GameState::new("g".to_string(), &BoardSetup::Standard, None);
    play(&mut g, mv(6, 2, 6, 3));
    play(&mut g, mv(5, 7, 5, 5));
    play(&mut g, mv(7, 2, 7, 4));
    play(&mut g, mv(4, 8, 8, 4));
    let s = g.current_state();
    assert_eq!(s.state, State::Finished(GameEnding::Checkmate(Color::White)));
    assert_eq!(winner(&g), Some("black".to_string()));
    assert!(s.captured_pieces.white.is_empty());
    assert!(s.captured_pieces.black.is_empty());
    assert_eq!(g.history.len(), 5);
}

#[test]
fn kingside_castle_for_white() {
    let mut g = GameState::new("g".to_string(), &BoardSetup::Standard, None);
    play(&mut g, mv(5, 2, 5, 4));
    play(&mut g, mv(5, 7, 5, 5));
    play(&mut g, mv(7, 1, 6, 3));
    play(&mut g, mv(7, 8, 6, 6));
    play(&mut g, mv(6, 1, 3, 4));
    play(&mut g, mv(6, 8, 3, 5));
    play(&mut g, mv(5, 1, 7, 1));
    let king = piece_at(&g, 7, 1).unwrap();
    let rook = piece_at(&g, 6, 1).unwrap();
    assert_eq!(king.piece_type, PieceType::King);
    assert_eq!(rook.piece_type, PieceType::Rook);
    assert_eq!(king.last_game_move, Some(7));
    assert_eq!(rook.last_game_move, Some(7));
    assert_eq!(piece_at(&g, 5, 1), None);
    assert_eq!(piece_at(&g, 8, 1), None);
    assert_eq!(g.current_state().in_check, None);
    assert_eq!(g.current_state().current_turn, Color::Black);
}

#[test]
fn en_passant_capture() {
    let mut b = empty_board();
    put(&mut b, 5, 1, PieceType::King, Color::White);
    put(&mut b, 5, 8, PieceType::King, Color::Black);
    put(&mut b, 4, 2, PieceType::Pawn, Color::White);
    put(&mut b, 5, 4, PieceType::Pawn, Color::Black);
    let mut g = game_with(b, Color::White);
    play(&mut g, mv(4, 2, 4, 4));
    play(&mut g, mv(5, 4, 4, 3));
    assert_eq!(piece_at(&g, 4, 4), None);
    let p = piece_at(&g, 4, 3).unwrap();
    assert_eq!((p.piece_type, p.color), (PieceType::Pawn, Color::Black));
    let caps = &g.current_state().captured_pieces;
    assert_eq!(caps.black.len(), 1);
    assert_eq!(caps.black[0].piece_type, PieceType::Pawn);
    assert_eq!(caps.black_points, 1);
}

#[test]
fn en_passant_window_is_one_ply() {
    let mut b = empty_board();
    put(&mut b, 5, 1, PieceType::King, Color::White);
    put(&mut b, 1, 8, PieceType::King, Color::Black);
    put(&mut b, 4, 2, PieceType::Pawn, Color::White);
    put(&mut b, 5, 4, PieceType::Pawn, Color::Black);
    let mut g = game_with(b, Color::White);
    play(&mut g, mv(4, 2, 4, 4));
    play(&mut g, mv(1, 8, 2, 8));
    play(&mut g, mv(5, 1, 5, 2));
    let r = validate_move(&g.current_state().board, &mv(5, 4, 4, 3), &Color::Black);
    assert_eq!(r, Err(MoveError::IllegalForPiece));
}

#[test]
fn castling_needs_unmoved_king() {
    let mut b = empty_board();
    put(&mut b, 5, 1, PieceType::King, Color::White);
    put(&mut b, 8, 1, PieceType::Rook, Color::White);
    put(&mut b, 5, 8, PieceType::King, Color::Black);
    let mut g = game_with(b.clone(), Color::White);
    assert_eq!(validate_move(&g.current_state().board, &mv(5, 1, 7, 1), &Color::White), Ok(()));
    play(&mut g, mv(5, 1, 5, 2));
    play(&mut g, mv(5, 8, 4, 8));
    play(&mut g, mv(5, 2, 5, 1));
    play(&mut g, mv(4, 8, 5, 8));
    let r = validate_move(&g.current_state().board, &mv(5, 1, 7, 1), &Color::White);
    assert_eq!(r, Err(MoveError::IllegalForPiece));
}

#[test]
fn castling_needs_unmoved_rook() {
    let mut b = empty_board();
    put(&mut b, 5, 1, PieceType::King, Color::White);
    put(&mut b, 8, 1, PieceType::Rook, Color::White);
    put(&mut b, 5, 8, PieceType::King, Color::Black);
    let mut g = game_with(b, Color::White);
    play(&mut g, mv(8, 1, 8, 2));
    play(&mut g, mv(5, 8, 4, 8));
    play(&mut g, mv(8, 2, 8, 1));
    play(&mut g, mv(4, 8, 5, 8));
    let r = validate_move(&g.current_state().board, &mv(5, 1, 7, 1), &Color::White);
    assert_eq!(r, Err(MoveError::IllegalForPiece));
}

#[test]
fn promotion_on_far_rank_only() {
    let mut b = empty_board();
    put(&mut b, 5, 1, PieceType::King, Color::White);
    put(&mut b, 1, 8, PieceType::King, Color::Black);
    put(&mut b, 3, 7, PieceType::Pawn, Color::White);
    put(&mut b, 4, 2, PieceType::Pawn, Color::White);
    let mut g = game_with(b, Color::White);
    play(&mut g, mv(4, 2, 4, 3));
    assert_eq!(piece_at(&g, 4, 3).unwrap().piece_type, PieceType::Pawn);
    play(&mut g, mv(1, 8, 1, 7));
    play(&mut g, mv(3, 7, 3, 8));
    assert_eq!(piece_at(&g, 3, 8).unwrap().piece_type, PieceType::Queen);
}

#[test]
fn black_promotes_on_rank_one() {
    let mut b = empty_board();
    put(&mut b, 8, 8, PieceType::King, Color::White);
    put(&mut b, 1, 8, PieceType::King, Color::Black);
    put(&mut b, 3, 2, PieceType::Pawn, Color::Black);
    let mut g = game_with(b, Color::Black);
    play(&mut g, mv(3, 2, 3, 1));
    assert_eq!(piece_at(&g, 3, 1).unwrap().piece_type, PieceType::Queen);
}

#[test]
fn starting_color_is_white() {
    let g = GameState::new("g".to_string(), &BoardSetup::Standard, Some(60));
    assert_eq!(g.current_state().current_turn, Color::White);
    assert_eq!(g.current_state().state, State::NotStarted);
    let t = g.game_time.unwrap();
    assert_eq!((t.white_seconds_left, t.black_seconds_left), (60, 60));
}

#[test]
fn turns_alternate_in_history() {
    let mut g = GameState::new("g".to_string(), &BoardSetup::Standard, None);
    play(&mut g, mv(5, 2, 5, 4));
    play(&mut g, mv(5, 7, 5, 5));
    play(&mut g, mv(7, 1, 6, 3));
    for i in 0..g.history.len() - 1 {
        assert_eq!(g.history[i + 1].current_turn, g.history[i].current_turn.opponent_color());
    }
}

#[test]
fn out_of_time_loss() {
    let mut game = create_game(Some("t1"), "u1", None, chess_core::game::ColorPreference::White, None, Some(1), "c1");
    assert_eq!(join_game_at(&mut game, "u2", "c2", 1000), Ok(Color::Black));
    assert_eq!(game.game_state.current_state().state, State::InProgress);
    assert_eq!(lose_via_out_of_time(&mut game, "c1"), Ok(Color::White));
    assert_eq!(
        game.game_state.current_state().state,
        State::Finished(GameEnding::OutOfTime(Color::White))
    );
    assert_eq!(game.game_state.game_time.unwrap().white_seconds_left, 0);
    assert_eq!(winner(&game.game_state), Some("black".to_string()));
}

#[test]
fn clock_runs_out_on_late_move() {
    let mut game = create_game(Some("t2"), "u1", None, chess_core::game::ColorPreference::White, None, Some(1), "c1");
    assert!(join_game_at(&mut game, "u2", "c2", 1000).is_ok());
    let before = game.game_state.game_time.unwrap();
    assert_eq!(move_piece_at(&mut game, "c1", &mv(5, 2, 5, 4), 1002), Ok(()));
    let after = game.game_state.game_time.unwrap();
    assert_eq!(
        game.game_state.current_state().state,
        State::Finished(GameEnding::OutOfTime(Color::White))
    );
    assert_eq!(after.white_seconds_left, 0);
    assert!(after.white_seconds_left <= before.white_seconds_left);
    assert!(after.black_seconds_left <= before.black_seconds_left);
    assert_eq!(game.game_state.current_state().board.get_piece_at_position(&pos(2, 5)).unwrap().piece_type, PieceType::Pawn);
}

#[test]
fn clock_charges_elapsed_seconds() {
    let mut g = GameState::new("g".to_string(), &BoardSetup::Standard, Some(100));
    g.game_time = Some(GameTime {
        both_players_last_connected_at: Some(1000),
        last_move_at: Some(1010),
        white_seconds_left: 100,
        black_seconds_left: 100,
    });
    make_move_at(&mut g, &mv(5, 2, 5, 4), 1030);
    let t = g.game_time.unwrap();
    assert_eq!(t.white_seconds_left, 80);
    assert_eq!(t.black_seconds_left, 100);
    assert_eq!(t.last_move_at, Some(1030));
}

#[test]
fn reconnection_takes_back_the_seat() {
    let mut game = create_game(Some("r1"), "u1", None, chess_core::game::ColorPreference::White, None, None, "c1");
    let phase = game.game_state.current_state().state;
    let notify = leave_game(&mut game, "c1").unwrap();
    assert_eq!(notify, None);
    assert_eq!(game.white_connection_id, Some("<disconnected>".to_string()));
    assert_eq!(join_game_at(&mut game, "u1", "c2", 5), Ok(Color::White));
    assert_eq!(game.white_connection_id, Some("c2".to_string()));
    assert_eq!(game.game_state.current_state().state, phase);
}

#[test]
fn finished_game_refuses_actions() {
    let mut game = create_game(Some("f1"), "u1", None, chess_core::game::ColorPreference::White, None, None, "c1");
    assert!(join_game_at(&mut game, "u2", "c2", 0).is_ok());
    assert_eq!(resign(&mut game, "c2"), Ok(Color::Black));
    assert_eq!(winner(&game.game_state), Some("white".to_string()));
    assert_eq!(resign(&mut game, "c1"), Err(ActionError::GameFinished));
    assert_eq!(lose_via_out_of_time(&mut game, "c1"), Err(ActionError::GameFinished));
    assert_eq!(move_piece_at(&mut game, "c1", &mv(5, 2, 5, 4), 0), Err(ActionError::GameFinished));
    assert_eq!(leave_game(&mut game, "c1"), Err(ActionError::GameFinished));
    assert_eq!(join_game_at(&mut game, "u3", "c3", 0), Err(ActionError::GameFinished));
}

#[test]
fn move_errors() {
    let mut game = create_game(Some("m1"), "u1", None, chess_core::game::ColorPreference::White, None, None, "c1");
    assert_eq!(move_piece_at(&mut game, "c1", &mv(5, 2, 5, 4), 0), Err(ActionError::OpponentNotPresent));
    assert!(join_game_at(&mut game, "u2", "c2", 0).is_ok());
    assert_eq!(move_piece_at(&mut game, "c9", &mv(5, 2, 5, 4), 0), Err(ActionError::NotAParticipant));
    assert_eq!(move_piece_at(&mut game, "c2", &mv(5, 7, 5, 5), 0), Err(ActionError::NotYourTurn));
    assert_eq!(
        move_piece_at(&mut game, "c1", &mv(5, 3, 5, 4), 0),
        Err(ActionError::Move(MoveError::NotYourPiece))
    );
    assert_eq!(
        move_piece_at(&mut game, "c1", &mv(5, 2, 5, 9), 0),
        Err(ActionError::Move(MoveError::OutOfBounds))
    );
    assert_eq!(
        move_piece_at(&mut game, "c1", &mv(5, 2, 5, 5), 0),
        Err(ActionError::Move(MoveError::IllegalForPiece))
    );
    assert_eq!(move_piece_at(&mut game, "c1", &mv(5, 2, 5, 4), 0), Ok(()));
    assert_eq!(game.game_state.current_state().current_turn, Color::Black);
}

#[test]
fn self_check_is_refused() {
    let mut b = empty_board();
    put(&mut b, 5, 1, PieceType::King, Color::White);
    put(&mut b, 5, 2, PieceType::Bishop, Color::White);
    put(&mut b, 5, 8, PieceType::Rook, Color::Black);
    put(&mut b, 1, 8, PieceType::King, Color::Black);
    assert_eq!(validate_move(&b, &mv(5, 2, 4, 3), &Color::White), Err(MoveError::SelfCheck));
    assert_eq!(validate_move(&b, &mv(5, 1, 4, 1), &Color::White), Ok(()));
}

#[test]
fn seat_conflicts() {
    let mut game = create_game(Some("s1"), "u1", None, chess_core::game::ColorPreference::Black, None, None, "c1");
    assert_eq!(game.black_username, Some("u1".to_string()));
    assert_eq!(join_game_at(&mut game, "u1", "c1", 0), Err(ActionError::AlreadyConnectedAs(Color::Black)));
    assert_eq!(join_game_at(&mut game, "u2", "c2", 0), Ok(Color::White));
    assert_eq!(join_game_at(&mut game, "u3", "c3", 0), Err(ActionError::GameFull));
}

#[test]
fn random_game_id_has_four_characters() {
    let game = create_game(None, "u1", None, chess_core::game::ColorPreference::Random, None, None, "c1");
    assert_eq!(game.game_id.chars().count(), 4);
    assert!(game.white_username.is_some() != game.black_username.is_some());
}

#[test]
fn make_move_with_current_time() {
    let mut g = GameState::new("g".to_string(), &BoardSetup::Standard, None);
    make_move(&mut g, &mv(7, 1, 6, 3));
    assert_eq!(g.history.len(), 2);
    assert_eq!(g.current_state().board.get_piece_at_position(&pos(3, 6)).unwrap().piece_type, PieceType::Knight);
}

#[test]
fn random_setup_shape() {
    let d = BoardDimensions { ranks: 10, files: 9 };
    let b = Board::new(&BoardSetup::Random(d));
    assert_eq!(b.squares.len(), 10);
    for f in 0..9 {
        let top = b.squares[0][f].unwrap();
        let bottom = b.squares[9][f].unwrap();
        assert_eq!(top.piece_type, bottom.piece_type);
        assert_eq!(top.piece_type == PieceType::King, f == 4);
        assert_ne!(top.piece_type, PieceType::Pawn);
        assert_eq!(b.squares[1][f].unwrap().piece_type, PieceType::Pawn);
        assert_eq!(b.squares[8][f].unwrap().color, Color::White);
    }
}

#[test]
fn king_and_one_other_piece_setup_shape() {
    let d = BoardDimensions { ranks: 6, files: 5 };
    let b = Board::new(&BoardSetup::KingAndOneOtherPiece(d));
    let other = b.squares[0][0].unwrap().piece_type;
    for f in 0..5 {
        let t = b.squares[0][f].unwrap().piece_type;
        if f == 2 {
            assert_eq!(t, PieceType::King);
        } else {
            assert_eq!(t, other);
        }
    }
}

#[test]
fn en_passant_never_lands_on_own_piece() {
    let mut b = empty_board();
    put(&mut b, 5, 1, PieceType::King, Color::White);
    put(&mut b, 8, 8, PieceType::King, Color::Black);
    put(&mut b, 5, 5, PieceType::Pawn, Color::White);
    put(&mut b, 4, 5, PieceType::Knight, Color::White);
    put(&mut b, 4, 6, PieceType::Bishop, Color::White);
    put(&mut b, 3, 6, PieceType::Pawn, Color::Black);
    let mut g = game_with(b, Color::Black);
    // Black's pawn captures onto d5, beside the White pawn, stamped with the new move count.
    play(&mut g, mv(3, 6, 4, 5));
    let r = validate_move(&g.current_state().board, &mv(5, 5, 4, 6), &Color::White);
    assert_eq!(r, Err(MoveError::IllegalForPiece));
}

#[test]
fn resigning_and_leaving_succeed_for_a_seated_channel() {
    let mut game = create_game(Some("l1"), "u1", None, chess_core::game::ColorPreference::White, None, None, "c1");
    assert!(join_game_at(&mut game, "u2", "c2", 0).is_ok());
    assert_eq!(leave_game(&mut game, "c2"), Ok(Some("c1".to_string())));
    assert_eq!(game.black_connection_id, Some("<disconnected>".to_string()));
    assert_eq!(leave_game(&mut game, "c9"), Err(ActionError::NotAParticipant));
    assert_eq!(resign(&mut game, "c9"), Err(ActionError::NotAParticipant));
    assert_eq!(resign(&mut game, "c1"), Ok(Color::White));
}
