use vstd::prelude::*;

use crate::board::{Board, BoardView};
use crate::game::GameStateAtPointInTime;
use crate::piece::{Color, Piece, PieceType};

verus! {

/// The FEN letter of a piece: lower case for Black, upper case for White.
pub open spec fn fen_letter(p: Piece) -> char {
    let lower = match p.piece_type {
        PieceType::Pawn => 'p',
        PieceType::Knight => 'n',
        PieceType::Bishop => 'b',
        PieceType::Rook => 'r',
        PieceType::Queen => 'q',
        PieceType::King => 'k',
    };
    if p.color == Color::White {
        ((lower as u8) - 32) as char
    } else {
        lower
    }
}

pub open spec fn digit(d: int) -> char {
    (48 + d) as char
}

/// The decimal digits of `n`.
pub open spec fn decimal(n: nat) -> Seq<char>
    decreases n,
{
    if n < 10 {
        seq![digit(n as int)]
    } else {
        decimal(n / 10) + seq![digit((n % 10) as int)]
    }
}

/// The digit of a pending run of `run` empty squares, if any.
pub open spec fn run_text(run: int) -> Seq<char> {
    if run > 0 {
        seq![digit(run)]
    } else {
        seq![]
    }
}

/// A rank's FEN text from file index `i` on, with `run` empty squares pending.
pub open spec fn row_fen(row: Seq<Option<Piece>>, i: int, run: int) -> Seq<char>
    decreases row.len() - i,
{
    if i >= row.len() {
        run_text(run)
    } else {
        match row[i] {
            Some(p) => run_text(run) + seq![fen_letter(p)] + row_fen(row, i + 1, 0),
            None => row_fen(row, i + 1, run + 1),
        }
    }
}

/// The first `n` ranks from the top, separated by slashes.
pub open spec fn placement(rows: Seq<Seq<Option<Piece>>>, n: int) -> Seq<char>
    decreases n,
{
    if n <= 1 {
        row_fen(rows[0], 0, 0)
    } else {
        placement(rows, n - 1) + seq!['/'] + row_fen(rows[n - 1], 0, 0)
    }
}

/// An unmoved piece of the given type and color on row `r`, file index `f`.
pub open spec fn unmoved_at(b: BoardView, r: int, f: int, t: PieceType, c: Color) -> bool {
    &&& b.rows[r][f] is Some
    &&& b.rows[r][f]->Some_0.piece_type == t
    &&& b.rows[r][f]->Some_0.color == c
    &&& b.rows[r][f]->Some_0.last_game_move is None
}

/// Castling rights from unmoved kings and rooks on their home squares.
pub open spec fn castling_text(b: BoardView) -> Seq<char> {
    let wk = unmoved_at(b, 7, 4, PieceType::King, Color::White);
    let bk = unmoved_at(b, 0, 4, PieceType::King, Color::Black);
    let s = (if wk && unmoved_at(b, 7, 7, PieceType::Rook, Color::White) { seq!['K'] } else { seq![] }) + (if wk
        && unmoved_at(b, 7, 0, PieceType::Rook, Color::White) { seq!['Q'] } else { seq![] }) + (if bk && unmoved_at(
        b,
        0,
        7,
        PieceType::Rook,
        Color::Black,
    ) { seq!['k'] } else { seq![] }) + (if bk && unmoved_at(b, 0, 0, PieceType::Rook, Color::Black) { seq!['q'] } else { seq![] });
    if s.len() == 0 {
        seq!['-']
    } else {
        s
    }
}

/// A pawn of color `c` on row `r`, file index `f` that moved on the latest move,
/// with its home row `home` now empty on that file.
pub open spec fn double_stepped(b: BoardView, r: int, home: int, f: int, c: Color) -> bool {
    &&& b.rows[r][f] is Some
    &&& b.rows[r][f]->Some_0.piece_type == PieceType::Pawn
    &&& b.rows[r][f]->Some_0.color == c
    &&& b.rows[r][f]->Some_0.last_game_move == Some(b.move_count as usize)
    &&& b.rows[home][f] is None
}

/// The first file index from `f` on with such a pawn.
pub open spec fn first_double_step(b: BoardView, r: int, home: int, c: Color, f: int) -> Option<int>
    decreases 8 - f,
{
    if f >= 8 {
        None
    } else if double_stepped(b, r, home, f, c) {
        Some(f)
    } else {
        first_double_step(b, r, home, c, f + 1)
    }
}

pub open spec fn file_letter(f: int) -> char {
    (97 + f) as char
}

/// The en-passant target: behind a White pawn that just advanced two squares to
/// rank 4, else behind such a Black pawn on rank 5, else `-`.
pub open spec fn en_passant_text(b: BoardView) -> Seq<char> {
    match first_double_step(b, 4, 6, Color::White, 0) {
        Some(f) => seq![file_letter(f), '3'],
        None => match first_double_step(b, 3, 1, Color::Black, 0) {
            Some(f) => seq![file_letter(f), '6'],
            None => seq!['-'],
        },
    }
}

/// The six-field FEN of an 8×8 position; the halfmove clock is always 0.
pub open spec fn fen(b: BoardView, turn: Color) -> Seq<char> {
    placement(b.rows, 8) + seq![' '] + (if turn == Color::White { seq!['w'] } else { seq!['b'] }) + seq![' ']
        + castling_text(b) + seq![' '] + en_passant_text(b) + seq![' ', '0', ' '] + decimal(
        (b.move_count / 2 + 1) as nat,
    )
}

fn letter_str(p: &Piece) -> (r: &'static str)
    ensures
        r@ == seq![fen_letter(*p)],
{
    proof {
        reveal_strlit("p");
        reveal_strlit("n");
        reveal_strlit("b");
        reveal_strlit("r");
        reveal_strlit("q");
        reveal_strlit("k");
        reveal_strlit("P");
        reveal_strlit("N");
        reveal_strlit("B");
        reveal_strlit("R");
        reveal_strlit("Q");
        reveal_strlit("K");
    }
    match (p.piece_type, p.color) {
        (PieceType::Pawn, Color::Black) => lit("p", 'p'),
        (PieceType::Knight, Color::Black) => lit("n", 'n'),
        (PieceType::Bishop, Color::Black) => lit("b", 'b'),
        (PieceType::Rook, Color::Black) => lit("r", 'r'),
        (PieceType::Queen, Color::Black) => lit("q", 'q'),
        (PieceType::King, Color::Black) => lit("k", 'k'),
        (PieceType::Pawn, Color::White) => lit("P", 'P'),
        (PieceType::Knight, Color::White) => lit("N", 'N'),
        (PieceType::Bishop, Color::White) => lit("B", 'B'),
        (PieceType::Rook, Color::White) => lit("R", 'R'),
        (PieceType::Queen, Color::White) => lit("Q", 'Q'),
        (PieceType::King, Color::White) => lit("K", 'K'),
    }
}

fn digit_str(d: usize) -> (r: &'static str)
    requires
        d < 10,
    ensures
        r@ == seq![digit(d as int)],
{
    proof {
        reveal_strlit("0");
        reveal_strlit("1");
        reveal_strlit("2");
        reveal_strlit("3");
        reveal_strlit("4");
        reveal_strlit("5");
        reveal_strlit("6");
        reveal_strlit("7");
        reveal_strlit("8");
        reveal_strlit("9");
    }
    match d {
        0 => lit("0", '0'),
        1 => lit("1", '1'),
        2 => lit("2", '2'),
        3 => lit("3", '3'),
        4 => lit("4", '4'),
        5 => lit("5", '5'),
        6 => lit("6", '6'),
        7 => lit("7", '7'),
        8 => lit("8", '8'),
        _ => lit("9", '9'),
    }
}

fn file_str(f: usize) -> (r: &'static str)
    requires
        f < 8,
    ensures
        r@ == seq![file_letter(f as int)],
{
    proof {
        reveal_strlit("a");
        reveal_strlit("b");
        reveal_strlit("c");
        reveal_strlit("d");
        reveal_strlit("e");
        reveal_strlit("f");
        reveal_strlit("g");
        reveal_strlit("h");
    }
    match f {
        0 => lit("a", 'a'),
        1 => lit("b", 'b'),
        2 => lit("c", 'c'),
        3 => lit("d", 'd'),
        4 => lit("e", 'e'),
        5 => lit("f", 'f'),
        6 => lit("g", 'g'),
        _ => lit("h", 'h'),
    }
}

/// A one-character literal's text.
fn lit(s: &'static str, c: char) -> (r: &'static str)
    requires
        s@.len() == 1,
        s@[0] == c,
    ensures
        r@ == seq![c],
{
    proof {
        assert(s@ =~= seq![c]);
    }
    s
}

fn append_decimal(out: &mut String, n: usize)
    ensures
        final(out)@ == old(out)@ + decimal(n as nat),
    decreases n,
{
    if n >= 10 {
        append_decimal(out, n / 10);
    }
    out.append(digit_str(n % 10));
    proof {
        if n >= 10 {
            assert(final(out)@ =~= old(out)@ + decimal(n as nat)) by {
                assert(decimal(n as nat) == decimal((n / 10) as nat) + seq![digit((n % 10) as int)]);
            }
        }
    }
}

/// Appends the FEN text of one rank.
fn generate_rank(out: &mut String, row: &Vec<Option<Piece>>)
    requires
        row@.len() <= 9,
    ensures
        final(out)@ == old(out)@ + row_fen(row@, 0, 0),
{
    let ghost start = out@;
    let mut empty_count: usize = 0;
    let mut i: usize = 0;
    while i < row.len()
        invariant
            row@.len() <= 9,
            i <= row@.len(),
            empty_count <= i,
            out@ + row_fen(row@, i as int, empty_count as int) == start + row_fen(row@, 0, 0),
        decreases row@.len() - i,
    {
        match row[i] {
            Some(piece) => {
                let ghost before = out@;
                if empty_count > 0 {
                    out.append(digit_str(empty_count));
                }
                out.append(letter_str(&piece));
                proof {
                    assert(out@ == before + run_text(empty_count as int) + seq![fen_letter(piece)]);
                    assert(out@ + row_fen(row@, i + 1, 0) =~= before + row_fen(row@, i as int, empty_count as int));
                }
                empty_count = 0;
            },
            None => {
                empty_count += 1;
            },
        }
        i += 1;
    }
    if empty_count > 0 {
        out.append(digit_str(empty_count));
    }
    proof {
        assert(out@ =~= start + row_fen(row@, 0, 0));
    }
}

fn generate_piece_placement(out: &mut String, squares: &Vec<Vec<Option<Piece>>>)
    requires
        squares@.len() == 8,
        forall|i: int| 0 <= i < 8 ==> (#[trigger] squares@[i])@.len() == 8,
    ensures
        final(out)@ == old(out)@ + placement(squares@.map_values(|r: Vec<Option<Piece>>| r@), 8),
{
    let ghost rows = squares@.map_values(|r: Vec<Option<Piece>>| r@);
    let ghost start = out@;
    generate_rank(out, &squares[0]);
    let mut i: usize = 1;
    while i < 8
        invariant
            1 <= i <= 8,
            squares@.len() == 8,
            forall|i: int| 0 <= i < 8 ==> (#[trigger] squares@[i])@.len() == 8,
            rows == squares@.map_values(|r: Vec<Option<Piece>>| r@),
            out@ == start + placement(rows, i as int),
        decreases 8 - i,
    {
        proof {
            reveal_strlit("/");
        }
        out.append(lit("/", '/'));
        generate_rank(out, &squares[i]);
        proof {
            assert(out@ =~= start + placement(rows, i + 1));
        }
        i += 1;
    }
}

fn unmoved_piece(sq: Option<Piece>, t: PieceType, c: Color) -> (r: bool)
    ensures
        r == (sq is Some && sq->Some_0.piece_type == t && sq->Some_0.color == c && sq->Some_0.last_game_move is None),
{
    match sq {
        Some(p) => p.piece_type == t && p.color == c && p.last_game_move.is_none(),
        None => false,
    }
}

fn generate_castling_rights(out: &mut String, board: &Board)
    requires
        board@.rows.len() == 8,
        forall|i: int| 0 <= i < 8 ==> (#[trigger] board@.rows[i]).len() == 8,
    ensures
        final(out)@ == old(out)@ + castling_text(board@),
{
    proof {
        reveal_strlit("K");
        reveal_strlit("Q");
        reveal_strlit("k");
        reveal_strlit("q");
        reveal_strlit("-");
    }
    let ghost start = out@;
    let ghost b = board@;
    assert(board.squares@[7]@ == b.rows[7] && board.squares@[0]@ == b.rows[0]);
    let wk = unmoved_piece(board.squares[7][4], PieceType::King, Color::White);
    let bk = unmoved_piece(board.squares[0][4], PieceType::King, Color::Black);
    let mut any = false;
    if wk && unmoved_piece(board.squares[7][7], PieceType::Rook, Color::White) {
        out.append(lit("K", 'K'));
        any = true;
    }
    if wk && unmoved_piece(board.squares[7][0], PieceType::Rook, Color::White) {
        out.append(lit("Q", 'Q'));
        any = true;
    }
    if bk && unmoved_piece(board.squares[0][7], PieceType::Rook, Color::Black) {
        out.append(lit("k", 'k'));
        any = true;
    }
    if bk && unmoved_piece(board.squares[0][0], PieceType::Rook, Color::Black) {
        out.append(lit("q", 'q'));
        any = true;
    }
    if !any {
        out.append(lit("-", '-'));
    }
    proof {
        assert(out@ =~= start + castling_text(b));
    }
}

/// The first file index with a pawn of `c` that just stepped two squares onto row `r`.
fn find_double_step(board: &Board, r: usize, home: usize, c: Color) -> (res: Option<usize>)
    requires
        board@.rows.len() == 8,
        forall|i: int| 0 <= i < 8 ==> (#[trigger] board@.rows[i]).len() == 8,
        r < 8,
        home < 8,
    ensures
        match res {
            Some(f) => first_double_step(board@, r as int, home as int, c, 0) == Some(f as int) && f < 8,
            None => first_double_step(board@, r as int, home as int, c, 0) is None,
        },
{
    let ghost b = board@;
    let mut f: usize = 0;
    while f < 8
        invariant
            b == board@,
            board@.rows.len() == 8,
            forall|i: int| 0 <= i < 8 ==> (#[trigger] board@.rows[i]).len() == 8,
            r < 8,
            home < 8,
            f <= 8,
            first_double_step(b, r as int, home as int, c, 0) == first_double_step(b, r as int, home as int, c, f as int),
        decreases 8 - f,
    {
        assert(board.squares@[r as int]@ == b.rows[r as int] && board.squares@[home as int]@ == b.rows[home as int]);
        let here = match board.squares[r][f] {
            Some(p) => p.piece_type == PieceType::Pawn && p.color == c && p.last_game_move == Some(board.move_count)
                && board.squares[home][f].is_none(),
            None => false,
        };
        if here {
            return Some(f);
        }
        f += 1;
    }
    None
}

fn generate_en_passant_target(out: &mut String, board: &Board)
    requires
        board@.rows.len() == 8,
        forall|i: int| 0 <= i < 8 ==> (#[trigger] board@.rows[i]).len() == 8,
    ensures
        final(out)@ == old(out)@ + en_passant_text(board@),
{
    proof {
        reveal_strlit("3");
        reveal_strlit("6");
        reveal_strlit("-");
    }
    let ghost start = out@;
    match find_double_step(board, 4, 6, Color::White) {
        Some(f) => {
            out.append(file_str(f));
            out.append(lit("3", '3'));
        },
        None => match find_double_step(board, 3, 1, Color::Black) {
            Some(f) => {
                out.append(file_str(f));
                out.append(lit("6", '6'));
            },
            None => {
                out.append(lit("-", '-'));
            },
        },
    }
    proof {
        assert(out@ =~= start + en_passant_text(board@));
    }
}

/// The FEN of a snapshot on a standard 8×8 board, for handing the position to an engine.
pub fn game_state_to_fen(game_state: &GameStateAtPointInTime) -> (r: String)
    requires
        game_state.board.wf(),
        game_state.board@.ranks() == 8,
        game_state.board@.files() == 8,
    ensures
        r@ == fen(game_state.board@, game_state.current_turn),
{
    proof {
        reveal_strlit(" ");
        reveal_strlit("w");
        reveal_strlit("b");
        reveal_strlit("0");
    }
    let board = &game_state.board;
    assert forall|i: int| 0 <= i < 8 implies (#[trigger] board.squares@[i])@.len() == 8 by {
        assert(board@.rows[i].len() == 8);
    }
    let mut out = String::new();
    generate_piece_placement(&mut out, &board.squares);
    out.append(lit(" ", ' '));
    match game_state.current_turn {
        Color::White => out.append(lit("w", 'w')),
        Color::Black => out.append(lit("b", 'b')),
    }
    out.append(lit(" ", ' '));
    generate_castling_rights(&mut out, board);
    out.append(lit(" ", ' '));
    generate_en_passant_target(&mut out, board);
    out.append(lit(" ", ' '));
    out.append(lit("0", '0'));
    out.append(lit(" ", ' '));
    append_decimal(&mut out, board.move_count / 2 + 1);
    proof {
        assert(out@ =~= fen(board@, game_state.current_turn));
    }
    out
}

} // verus!
