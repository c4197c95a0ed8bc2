use vstd::prelude::*;

verus! {

/// The side a piece plays for.
#[derive(Clone, Copy, Debug, PartialEq, Eq, Structural)]
pub enum Color {
    White,
    Black,
}

impl Color {
    /// The other side.
    pub open spec fn opponent(self) -> Color {
        match self {
            Color::White => Color::Black,
            Color::Black => Color::White,
        }
    }

    /// The other side.
    pub fn other(&self) -> (r: Color)
        ensures
            r == self.opponent(),
    {
        match self {
            Color::White => Color::Black,
            Color::Black => Color::White,
        }
    }

    /// The single-character display form: `'W'` or `'B'`.
    pub fn to_char(&self) -> (r: char)
        ensures
            r == (if *self == Color::White { 'W' } else { 'B' }),
    {
        match self {
            Color::White => 'W',
            Color::Black => 'B',
        }
    }
}

/// How a piece travels: along a line that other pieces block, or in a jump
/// over them.
#[derive(Clone, Copy, Debug, PartialEq, Eq, Structural)]
pub enum MoveType {
    /// Stops at the first piece in its path.
    Linear,
    /// Is not stopped by pieces between its square and its destination.
    Jump,
}

/// A pawn of one side.
#[derive(Clone, Copy, Debug, PartialEq, Eq, Structural)]
pub struct Pawn {
    pub color: Color,
}

/// A knight of one side.
#[derive(Clone, Copy, Debug, PartialEq, Eq, Structural)]
pub struct Knight {
    pub color: Color,
}

/// A bishop of one side.
#[derive(Clone, Copy, Debug, PartialEq, Eq, Structural)]
pub struct Bishop {
    pub color: Color,
}

/// A rook of one side.
#[derive(Clone, Copy, Debug, PartialEq, Eq, Structural)]
pub struct Rook {
    pub color: Color,
}

/// A queen of one side.
#[derive(Clone, Copy, Debug, PartialEq, Eq, Structural)]
pub struct Queen {
    pub color: Color,
}

/// A king of one side.
#[derive(Clone, Copy, Debug, PartialEq, Eq, Structural)]
pub struct King {
    pub color: Color,
}

/// A piece on the board: one of the six kinds, each with its side.
#[derive(Clone, Copy, Debug, PartialEq, Eq, Structural)]
pub enum Piece {
    Pawn(Pawn),
    Knight(Knight),
    Bishop(Bishop),
    Rook(Rook),
    Queen(Queen),
    King(King),
}

impl Pawn {
    /// A pawn of the given side.
    pub fn new(color: Color) -> (r: Pawn)
        ensures
            r.color == color,
    {
        Pawn { color }
    }
}

impl Knight {
    /// A knight of the given side.
    pub fn new(color: Color) -> (r: Knight)
        ensures
            r.color == color,
    {
        Knight { color }
    }
}

impl Bishop {
    /// A bishop of the given side.
    pub fn new(color: Color) -> (r: Bishop)
        ensures
            r.color == color,
    {
        Bishop { color }
    }
}

impl Rook {
    /// A rook of the given side.
    pub fn new(color: Color) -> (r: Rook)
        ensures
            r.color == color,
    {
        Rook { color }
    }
}

impl Queen {
    /// A queen of the given side.
    pub fn new(color: Color) -> (r: Queen)
        ensures
            r.color == color,
    {
        Queen { color }
    }
}

impl King {
    /// A king of the given side.
    pub fn new(color: Color) -> (r: King)
        ensures
            r.color == color,
    {
        King { color }
    }
}

impl Piece {
    /// The side the piece plays for.
    pub open spec fn side(self) -> Color {
        match self {
            Piece::Pawn(p) => p.color,
            Piece::Knight(p) => p.color,
            Piece::Bishop(p) => p.color,
            Piece::Rook(p) => p.color,
            Piece::Queen(p) => p.color,
            Piece::King(p) => p.color,
        }
    }

    /// The one-letter code of the kind: P, N, B, R, Q or K.
    pub open spec fn code(self) -> char {
        match self {
            Piece::Pawn(_) => 'P',
            Piece::Knight(_) => 'N',
            Piece::Bishop(_) => 'B',
            Piece::Rook(_) => 'R',
            Piece::Queen(_) => 'Q',
            Piece::King(_) => 'K',
        }
    }

    /// The FEN letter of the piece: its code, upper case for White and lower
    /// case for Black.
    pub open spec fn fen_letter(self) -> char {
        match self {
            Piece::Pawn(p) => if p.color == Color::White { 'P' } else { 'p' },
            Piece::Knight(p) => if p.color == Color::White { 'N' } else { 'n' },
            Piece::Bishop(p) => if p.color == Color::White { 'B' } else { 'b' },
            Piece::Rook(p) => if p.color == Color::White { 'R' } else { 'r' },
            Piece::Queen(p) => if p.color == Color::White { 'Q' } else { 'q' },
            Piece::King(p) => if p.color == Color::White { 'K' } else { 'k' },
        }
    }

    /// The piece a FEN letter names, if any.
    pub open spec fn from_fen_letter(c: char) -> Option<Piece> {
        match c {
            'P' => Some(Piece::Pawn(Pawn { color: Color::White })),
            'N' => Some(Piece::Knight(Knight { color: Color::White })),
            'B' => Some(Piece::Bishop(Bishop { color: Color::White })),
            'R' => Some(Piece::Rook(Rook { color: Color::White })),
            'Q' => Some(Piece::Queen(Queen { color: Color::White })),
            'K' => Some(Piece::King(King { color: Color::White })),
            'p' => Some(Piece::Pawn(Pawn { color: Color::Black })),
            'n' => Some(Piece::Knight(Knight { color: Color::Black })),
            'b' => Some(Piece::Bishop(Bishop { color: Color::Black })),
            'r' => Some(Piece::Rook(Rook { color: Color::Black })),
            'q' => Some(Piece::Queen(Queen { color: Color::Black })),
            'k' => Some(Piece::King(King { color: Color::Black })),
            _ => None,
        }
    }

    /// Whether the piece is a king of the given side.
    pub open spec fn is_king_of(self, color: Color) -> bool {
        self is King && self.side() == color
    }

    /// The side the piece plays for.
    pub fn get_color(&self) -> (r: &Color)
        ensures
            *r == self.side(),
    {
        match self {
            Piece::Pawn(p) => &p.color,
            Piece::Knight(p) => &p.color,
            Piece::Bishop(p) => &p.color,
            Piece::Rook(p) => &p.color,
            Piece::Queen(p) => &p.color,
            Piece::King(p) => &p.color,
        }
    }

    /// The one-letter code of the kind: `"P"`, `"N"`, `"B"`, `"R"`, `"Q"` or `"K"`.
    pub fn get_short_name(&self) -> (r: &'static str)
        ensures
            r@ == seq![self.code()],
    {
        match self {
            Piece::Pawn(_) => {
                proof {
                    reveal_strlit("P");
                }
                "P"
            },
            Piece::Knight(_) => {
                proof {
                    reveal_strlit("N");
                }
                "N"
            },
            Piece::Bishop(_) => {
                proof {
                    reveal_strlit("B");
                }
                "B"
            },
            Piece::Rook(_) => {
                proof {
                    reveal_strlit("R");
                }
                "R"
            },
            Piece::Queen(_) => {
                proof {
                    reveal_strlit("Q");
                }
                "Q"
            },
            Piece::King(_) => {
                proof {
                    reveal_strlit("K");
                }
                "K"
            },
        }
    }

    /// `Jump` for a knight, `Linear` for every other kind.
    pub fn get_move_type(&self) -> (r: MoveType)
        ensures
            r == (if *self is Knight { MoveType::Jump } else { MoveType::Linear }),
    {
        match self {
            Piece::Knight(_) => MoveType::Jump,
            _ => MoveType::Linear,
        }
    }

    /// The FEN letter of the piece.
    pub fn to_fen_char(&self) -> (r: char)
        ensures
            r == self.fen_letter(),
    {
        let white = match self.get_color() {
            Color::White => true,
            Color::Black => false,
        };
        match self {
            Piece::Pawn(_) => if white { 'P' } else { 'p' },
            Piece::Knight(_) => if white { 'N' } else { 'n' },
            Piece::Bishop(_) => if white { 'B' } else { 'b' },
            Piece::Rook(_) => if white { 'R' } else { 'r' },
            Piece::Queen(_) => if white { 'Q' } else { 'q' },
            Piece::King(_) => if white { 'K' } else { 'k' },
        }
    }

    /// The piece a FEN letter names, if any.
    pub fn from_fen_char(c: char) -> (r: Option<Piece>)
        ensures
            r == Piece::from_fen_letter(c),
    {
        match c {
            'P' => Some(Piece::Pawn(Pawn::new(Color::White))),
            'N' => Some(Piece::Knight(Knight::new(Color::White))),
            'B' => Some(Piece::Bishop(Bishop::new(Color::White))),
            'R' => Some(Piece::Rook(Rook::new(Color::White))),
            'Q' => Some(Piece::Queen(Queen::new(Color::White))),
            'K' => Some(Piece::King(King::new(Color::White))),
            'p' => Some(Piece::Pawn(Pawn::new(Color::Black))),
            'n' => Some(Piece::Knight(Knight::new(Color::Black))),
            'b' => Some(Piece::Bishop(Bishop::new(Color::Black))),
            'r' => Some(Piece::Rook(Rook::new(Color::Black))),
            'q' => Some(Piece::Queen(Queen::new(Color::Black))),
            'k' => Some(Piece::King(King::new(Color::Black))),
            _ => None,
        }
    }

    /// Is this a king of the given side?
    pub fn is_king_of_color(&self, color: &Color) -> (r: bool)
        ensures
            r == self.is_king_of(*color),
    {
        match self {
            Piece::King(k) => k.color == *color,
            _ => false,
        }
    }
}

/// The FEN letter of a piece names that piece.
pub proof fn lemma_fen_letter_round_trip(p: Piece)
    ensures
        Piece::from_fen_letter(p.fen_letter()) == Some(p),
{
}

} // verus!
