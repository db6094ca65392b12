use vstd::prelude::*;

verus! {

/// The two sides of a game.
#[derive(Clone, Copy, Debug, PartialEq, Eq, Structural)]
pub enum Color {
    White,
    Black,
}

impl Color {
    pub open spec fn opposite(self) -> Color {
        match self {
            Color::White => Color::Black,
            Color::Black => Color::White,
        }
    }

    /// The lower-case name of the side, as used in stored records.
    pub open spec fn name(self) -> Seq<char> {
        match self {
            Color::White => seq!['w', 'h', 'i', 't', 'e'],
            Color::Black => seq!['b', 'l', 'a', 'c', 'k'],
        }
    }

    pub fn opponent_color(&self) -> (r: Color)
        ensures
            r == self.opposite(),
    {
        match self {
            Color::White => Color::Black,
            Color::Black => Color::White,
        }
    }

    /// `"white"` or `"black"`.
    pub fn to_string(&self) -> (r: String)
        ensures
            r@ == self.name(),
    {
        let r = match self {
            Color::White => String::from_str("white"),
            Color::Black => String::from_str("black"),
        };
        proof {
            reveal_strlit("white");
            reveal_strlit("black");
        }
        r
    }
}

/// The name of what `str::to_lowercase` makes of `s`.
pub uninterp spec fn lower_of(s: Seq<char>) -> Seq<char>;

/// Relies on `str::to_lowercase`: the result depends on the characters alone.
#[verifier::external_body]
fn lowercase(s: &str) -> (r: String)
    ensures
        r@ == lower_of(s@),
{
    s.to_lowercase()
}

/// The side named exactly `s`.
pub open spec fn color_named(s: Seq<char>) -> Option<Color> {
    if s == Color::White.name() {
        Some(Color::White)
    } else if s == Color::Black.name() {
        Some(Color::Black)
    } else {
        None
    }
}

impl Color {
    /// The side whose lower-case name is exactly `s`.
    pub fn from_lowercase_name(s: &String) -> (r: Option<Color>)
        ensures
            r == color_named(s@),
    {
        if *s == Color::White.to_string() {
            Some(Color::White)
        } else if *s == Color::Black.to_string() {
            Some(Color::Black)
        } else {
            None
        }
    }

    /// The side named `s`, in any letter case.
    pub fn from_str(s: &str) -> (r: Option<Color>)
        ensures
            r == color_named(lower_of(s@)),
    {
        let lower = lowercase(s);
        Color::from_lowercase_name(&lower)
    }
}

#[derive(Clone, Copy, Debug, PartialEq, Eq, Structural)]
pub enum PieceType {
    Pawn,
    Knight,
    Bishop,
    Rook,
    Queen,
    King,
}

impl PieceType {
    /// Position of the type in the order Pawn, Knight, Bishop, Rook, Queen, King.
    pub open spec fn index(self) -> nat {
        match self {
            PieceType::Pawn => 0,
            PieceType::Knight => 1,
            PieceType::Bishop => 2,
            PieceType::Rook => 3,
            PieceType::Queen => 4,
            PieceType::King => 5,
        }
    }

    pub fn from_index(value: usize) -> (r: PieceType)
        requires
            value < 6,
        ensures
            r.index() == value,
    {
        match value {
            0 => PieceType::Pawn,
            1 => PieceType::Knight,
            2 => PieceType::Bishop,
            3 => PieceType::Rook,
            4 => PieceType::Queen,
            _ => PieceType::King,
        }
    }

    pub fn to_index(&self) -> (r: u8)
        ensures
            r == self.index(),
    {
        match self {
            PieceType::Pawn => 0,
            PieceType::Knight => 1,
            PieceType::Bishop => 2,
            PieceType::Rook => 3,
            PieceType::Queen => 4,
            PieceType::King => 5,
        }
    }
}

/// Material value of a piece type: Pawn 1, Knight and Bishop 3, Rook 5, Queen 9, King 0.
pub open spec fn point_value(t: PieceType) -> nat {
    match t {
        PieceType::Pawn => 1,
        PieceType::Knight => 3,
        PieceType::Bishop => 3,
        PieceType::Rook => 5,
        PieceType::Queen => 9,
        PieceType::King => 0,
    }
}

/// A piece on the board. `last_game_move` is absent while the piece has never
/// moved, and otherwise holds the board's move counter at its latest move.
#[derive(Clone, Copy, Debug, PartialEq, Eq, Structural)]
pub struct Piece {
    pub piece_type: PieceType,
    pub color: Color,
    pub last_game_move: Option<usize>,
}

impl Piece {
    pub fn new(piece_type: PieceType, color: Color) -> (r: Piece)
        ensures
            r == (Piece { piece_type, color, last_game_move: None }),
    {
        Piece { piece_type, color, last_game_move: None }
    }

    pub fn get_point_value(&self) -> (r: u16)
        ensures
            r == point_value(self.piece_type),
    {
        match self.piece_type {
            PieceType::King => 0,
            PieceType::Queen => 9,
            PieceType::Rook => 5,
            PieceType::Bishop => 3,
            PieceType::Knight => 3,
            PieceType::Pawn => 1,
        }
    }
}

} // verus!
