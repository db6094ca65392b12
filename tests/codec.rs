use chess_core::bitboards::Bitboards;
use chess_core::board::{pos, Board, BoardSetup};
use chess_core::codec::{decode_piece, encode_piece};
use chess_core::compact::CompactCapturedPieces;
use chess_core::fen::game_state_to_fen;
use chess_core::game::{CapturedPieces, GameState};
use chess_core::piece::{Color, Piece, PieceType};

#[test]
fn piece_codes() {
    assert_eq!(encode_piece(&Piece::new(PieceType::Pawn, Color::White)), 0);
    assert_eq!(encode_piece(&Piece::new(PieceType::King, Color::White)), 5);
    assert_eq!(encode_piece(&Piece::new(PieceType::Pawn, Color::Black)), 6);
    assert_eq!(encode_piece(&Piece::new(PieceType::Queen, Color::Black)), 10);
    assert_eq!(decode_piece(9), Some(Piece::new(PieceType::Rook, Color::Black)));
    assert_eq!(decode_piece(12), None);
    assert_eq!(decode_piece(15), None);
}

#[test]
fn point_values() {
    assert_eq!(Piece::new(PieceType::Queen, Color::White).get_point_value(), 9);
    assert_eq!(Piece::new(PieceType::Knight, Color::Black).get_point_value(), 3);
    assert_eq!(Piece::new(PieceType::King, Color::Black).get_point_value(), 0);
}

#[test]
fn standard_board_packs_top_rank_first() {
    let b = Board::new(&BoardSetup::Standard);
    let bytes = Bitboards::from_board(b.squares.clone()).to_compact_bytes();
    assert_eq!(&bytes[..4], &[0x97, 0x8A, 0xB8, 0x79]);
    assert_eq!(&bytes[28..], &[0x31, 0x24, 0x52, 0x13]);
    let c = b.to_compact();
    assert_eq!(c.squares, "l4q4eWZmZmb/////////////////////AAAAADEkUhM=");
    assert_eq!(c.last_game_moves.len(), 64);
}

#[test]
fn odd_square_count_pads_with_empty_nibble() {
    let b = Board { squares: vec![vec![Some(Piece::new(PieceType::King, Color::White)), None, None]], move_count: 0 };
    let bytes = Bitboards::from_board(b.squares.clone()).to_compact_bytes();
    assert_eq!(bytes, vec![0x5F, 0xFF]);
}

#[test]
fn compact_round_trip() {
    let mut g = GameState::new("g".to_string(), &BoardSetup::Standard, None);
    chess_core::game::make_move_at(&mut g, &chess_core::board::PlayerMove { from: pos(2, 5), to: pos(4, 5) }, 0);
    let b = &g.current_state().board;
    let c = b.to_compact();
    let back = Board::from_compact(&c).unwrap();
    assert_eq!(back.squares, b.squares);
    assert_eq!(back.move_count, 1);
    assert_eq!(back.get_piece_at_position(&pos(4, 5)).unwrap().last_game_move, Some(1));
    assert_eq!(back.to_compact().squares, c.squares);
}

#[test]
fn compact_rejects_bad_input() {
    let b = Board::new(&BoardSetup::Standard);
    let mut c = b.to_compact();
    c.squares = "not base64!".to_string();
    assert!(Board::from_compact(&c).is_none());
    c.squares = "AAk=".to_string();
    assert!(Board::from_compact(&c).is_none());
    assert!(Bitboards::from_base64("%%", 8, 8).is_none());
}

#[test]
fn bitboards_set_get_clear() {
    let mut bb = Bitboards::new(8, 8);
    let q = Piece::new(PieceType::Queen, Color::Black);
    bb.set_piece(3, 4, &q);
    assert_eq!(bb.get_piece(3, 4), Some(q));
    assert_eq!(bb.get_piece(4, 3), None);
    bb.clear_square(3, 4);
    assert_eq!(bb.get_piece(3, 4), None);
}

#[test]
fn captured_pieces_round_trip() {
    let mut caps = CapturedPieces::new();
    caps.white.push(Piece::new(PieceType::Pawn, Color::Black));
    caps.white.push(Piece::new(PieceType::Queen, Color::Black));
    caps.white_points = 10;
    let c = caps.to_compact();
    assert_eq!(c.white, "Bgo=");
    assert_eq!(c.black, "");
    let back = CapturedPieces::from_compact(&c).unwrap();
    assert_eq!(back.white, caps.white);
    assert_eq!(back.white_points, 10);
    let bad = CompactCapturedPieces { white: "DA==".to_string(), white_points: 0, black: String::new(), black_points: 0 };
    assert!(CapturedPieces::from_compact(&bad).is_none());
}

#[test]
fn fen_after_double_step() {
    let mut g = GameState::new("g".to_string(), &BoardSetup::Standard, None);
    chess_core::game::make_move_at(&mut g, &chess_core::board::PlayerMove { from: pos(2, 5), to: pos(4, 5) }, 0);
    assert_eq!(
        game_state_to_fen(g.current_state()),
        "rnbqkbnr/pppppppp/8/8/4P3/8/PPPP1PPP/RNBQKBNR b KQkq e3 0 1"
    );
}
