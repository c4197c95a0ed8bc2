use vstd::prelude::*;

use crate::error::Error;

verus! {

/// A column of the board, `A` (queen's rook side) to `H`; `Invalid` stands for
/// any value off the board.
#[derive(Clone, Copy, Debug, PartialEq, Eq, Structural, PartialOrd)]
pub enum File {
    A,
    B,
    C,
    D,
    E,
    F,
    G,
    H,
    Invalid,
}

/// A row of the board, `One` (White's back rank) to `Eight`; `Invalid` stands
/// for any value off the board.
#[derive(Clone, Copy, Debug, PartialEq, Eq, Structural, PartialOrd)]
pub enum Rank {
    One,
    Two,
    Three,
    Four,
    Five,
    Six,
    Seven,
    Eight,
    Invalid,
}

impl File {
    /// The file's number, 1 for `A` to 8 for `H`; 0 for `Invalid`.
    pub open spec fn num(self) -> int {
        match self {
            File::A => 1,
            File::B => 2,
            File::C => 3,
            File::D => 4,
            File::E => 5,
            File::F => 6,
            File::G => 7,
            File::H => 8,
            File::Invalid => 0,
        }
    }

    /// The file numbered `i`, or `Invalid` outside 1..8.
    pub open spec fn from_num(i: int) -> File {
        if i == 1 {
            File::A
        } else if i == 2 {
            File::B
        } else if i == 3 {
            File::C
        } else if i == 4 {
            File::D
        } else if i == 5 {
            File::E
        } else if i == 6 {
            File::F
        } else if i == 7 {
            File::G
        } else if i == 8 {
            File::H
        } else {
            File::Invalid
        }
    }

    /// The upper-case letter of the file, `'!'` for `Invalid`.
    pub open spec fn letter(self) -> char {
        match self {
            File::A => 'A',
            File::B => 'B',
            File::C => 'C',
            File::D => 'D',
            File::E => 'E',
            File::F => 'F',
            File::G => 'G',
            File::H => 'H',
            File::Invalid => '!',
        }
    }

    /// The lower-case letter of the file, `'!'` for `Invalid`.
    pub open spec fn lower_letter(self) -> char {
        match self {
            File::A => 'a',
            File::B => 'b',
            File::C => 'c',
            File::D => 'd',
            File::E => 'e',
            File::F => 'f',
            File::G => 'g',
            File::H => 'h',
            File::Invalid => '!',
        }
    }

    /// The file named by a letter, in either case.
    pub open spec fn from_letter(c: char) -> Option<File> {
        match c {
            'a' | 'A' => Some(File::A),
            'b' | 'B' => Some(File::B),
            'c' | 'C' => Some(File::C),
            'd' | 'D' => Some(File::D),
            'e' | 'E' => Some(File::E),
            'f' | 'F' => Some(File::F),
            'g' | 'G' => Some(File::G),
            'h' | 'H' => Some(File::H),
            _ => None,
        }
    }

    /// Whether this is a file of the board.
    pub fn is_valid(&self) -> (r: bool)
        ensures
            r == (*self != File::Invalid),
    {
        !matches!(self, File::Invalid)
    }

    /// The file's number, 1 for `A` to 8 for `H`.
    pub fn as_i8(&self) -> (r: i8)
        requires
            *self != File::Invalid,
        ensures
            r == self.num(),
    {
        match self {
            File::A => 1,
            File::B => 2,
            File::C => 3,
            File::D => 4,
            File::E => 5,
            File::F => 6,
            File::G => 7,
            File::H => 8,
            File::Invalid => 0,
        }
    }

    /// The single-character display form: the upper-case letter, `'!'` for `Invalid`.
    pub fn to_char(&self) -> (r: char)
        ensures
            r == self.letter(),
    {
        match self {
            File::A => 'A',
            File::B => 'B',
            File::C => 'C',
            File::D => 'D',
            File::E => 'E',
            File::F => 'F',
            File::G => 'G',
            File::H => 'H',
            File::Invalid => '!',
        }
    }

    /// The lower-case letter of the file, `'!'` for `Invalid`.
    pub fn to_lower_char(&self) -> (r: char)
        ensures
            r == self.lower_letter(),
    {
        match self {
            File::A => 'a',
            File::B => 'b',
            File::C => 'c',
            File::D => 'd',
            File::E => 'e',
            File::F => 'f',
            File::G => 'g',
            File::H => 'h',
            File::Invalid => '!',
        }
    }

    /// The file named by a letter, in either case.
    pub fn parse_char(c: char) -> (r: Option<File>)
        ensures
            r == File::from_letter(c),
    {
        match c {
            'a' | 'A' => Some(File::A),
            'b' | 'B' => Some(File::B),
            'c' | 'C' => Some(File::C),
            'd' | 'D' => Some(File::D),
            'e' | 'E' => Some(File::E),
            'f' | 'F' => Some(File::F),
            'g' | 'G' => Some(File::G),
            'h' | 'H' => Some(File::H),
            _ => None,
        }
    }
}

impl From<i8> for File {
    /// The file numbered `x`, or `Invalid` when `x` lies outside 1..8.
    fn from(x: i8) -> (r: File) {
        match x {
            1 => File::A,
            2 => File::B,
            3 => File::C,
            4 => File::D,
            5 => File::E,
            6 => File::F,
            7 => File::G,
            8 => File::H,
            _ => File::Invalid,
        }
    }
}

impl vstd::std_specs::convert::FromSpecImpl<i8> for File {
    open spec fn obeys_from_spec() -> bool {
        true
    }

    open spec fn from_spec(x: i8) -> File {
        File::from_num(x as int)
    }
}

impl Rank {
    /// The rank's number, 1 for `One` to 8 for `Eight`; 0 for `Invalid`.
    pub open spec fn num(self) -> int {
        match self {
            Rank::One => 1,
            Rank::Two => 2,
            Rank::Three => 3,
            Rank::Four => 4,
            Rank::Five => 5,
            Rank::Six => 6,
            Rank::Seven => 7,
            Rank::Eight => 8,
            Rank::Invalid => 0,
        }
    }

    /// The rank numbered `i`, or `Invalid` outside 1..8.
    pub open spec fn from_num(i: int) -> Rank {
        if i == 1 {
            Rank::One
        } else if i == 2 {
            Rank::Two
        } else if i == 3 {
            Rank::Three
        } else if i == 4 {
            Rank::Four
        } else if i == 5 {
            Rank::Five
        } else if i == 6 {
            Rank::Six
        } else if i == 7 {
            Rank::Seven
        } else if i == 8 {
            Rank::Eight
        } else {
            Rank::Invalid
        }
    }

    /// The digit of the rank, `'!'` for `Invalid`.
    pub open spec fn digit(self) -> char {
        match self {
            Rank::One => '1',
            Rank::Two => '2',
            Rank::Three => '3',
            Rank::Four => '4',
            Rank::Five => '5',
            Rank::Six => '6',
            Rank::Seven => '7',
            Rank::Eight => '8',
            Rank::Invalid => '!',
        }
    }

    /// The rank named by a digit.
    pub open spec fn from_digit(c: char) -> Option<Rank> {
        match c {
            '1' => Some(Rank::One),
            '2' => Some(Rank::Two),
            '3' => Some(Rank::Three),
            '4' => Some(Rank::Four),
            '5' => Some(Rank::Five),
            '6' => Some(Rank::Six),
            '7' => Some(Rank::Seven),
            '8' => Some(Rank::Eight),
            _ => None,
        }
    }

    /// Whether this is a rank of the board.
    pub fn is_valid(&self) -> (r: bool)
        ensures
            r == (*self != Rank::Invalid),
    {
        !matches!(self, Rank::Invalid)
    }

    /// The rank's number, 1 for `One` to 8 for `Eight`.
    pub fn as_i8(&self) -> (r: i8)
        requires
            *self != Rank::Invalid,
        ensures
            r == self.num(),
    {
        match self {
            Rank::One => 1,
            Rank::Two => 2,
            Rank::Three => 3,
            Rank::Four => 4,
            Rank::Five => 5,
            Rank::Six => 6,
            Rank::Seven => 7,
            Rank::Eight => 8,
            Rank::Invalid => 0,
        }
    }

    /// The single-character display form: the digit, `'!'` for `Invalid`.
    pub fn to_char(&self) -> (r: char)
        ensures
            r == self.digit(),
    {
        match self {
            Rank::One => '1',
            Rank::Two => '2',
            Rank::Three => '3',
            Rank::Four => '4',
            Rank::Five => '5',
            Rank::Six => '6',
            Rank::Seven => '7',
            Rank::Eight => '8',
            Rank::Invalid => '!',
        }
    }

    /// The rank named by a digit.
    pub fn parse_char(c: char) -> (r: Option<Rank>)
        ensures
            r == Rank::from_digit(c),
    {
        match c {
            '1' => Some(Rank::One),
            '2' => Some(Rank::Two),
            '3' => Some(Rank::Three),
            '4' => Some(Rank::Four),
            '5' => Some(Rank::Five),
            '6' => Some(Rank::Six),
            '7' => Some(Rank::Seven),
            '8' => Some(Rank::Eight),
            _ => None,
        }
    }
}

impl From<i8> for Rank {
    /// The rank numbered `x`, or `Invalid` when `x` lies outside 1..8.
    fn from(x: i8) -> (r: Rank) {
        match x {
            1 => Rank::One,
            2 => Rank::Two,
            3 => Rank::Three,
            4 => Rank::Four,
            5 => Rank::Five,
            6 => Rank::Six,
            7 => Rank::Seven,
            8 => Rank::Eight,
            _ => Rank::Invalid,
        }
    }
}

impl vstd::std_specs::convert::FromSpecImpl<i8> for Rank {
    open spec fn obeys_from_spec() -> bool {
        true
    }

    open spec fn from_spec(x: i8) -> Rank {
        Rank::from_num(x as int)
    }
}

/// A square's address: a file and a rank.
#[derive(Clone, Copy, Debug, PartialEq, Eq, Structural, PartialOrd)]
pub struct Coordinate {
    pub file: File,
    pub rank: Rank,
}

/// The number `n` of a file or rank moved by `d`; 0, the number of `Invalid`,
/// stays 0. A result outside 1..8 stands for `Invalid`.
pub open spec fn shift_num(n: int, d: int) -> int {
    if n == 0 {
        0
    } else {
        n + d
    }
}

impl Coordinate {
    /// Neither the file nor the rank is `Invalid`.
    pub open spec fn valid(self) -> bool {
        self.file != File::Invalid && self.rank != Rank::Invalid
    }

    /// The coordinate of zero-based column `x` and row `y`.
    pub open spec fn at(x: int, y: int) -> Coordinate {
        Coordinate { file: File::from_num(x + 1), rank: Rank::from_num(y + 1) }
    }

    /// This coordinate moved by `dx` files and `dy` ranks, each axis on its own.
    pub open spec fn shifted(self, dx: int, dy: int) -> Coordinate {
        Coordinate {
            file: File::from_num(shift_num(self.file.num(), dx)),
            rank: Rank::from_num(shift_num(self.rank.num(), dy)),
        }
    }

    /// The two-character text of a coordinate: upper-case file letter, rank digit.
    pub open spec fn text(self) -> Seq<char> {
        seq![self.file.letter(), self.rank.digit()]
    }

    /// The result of reading a two-character position string.
    pub open spec fn parse(s: Seq<char>) -> Result<Coordinate, Error> {
        if s.len() == 2 && File::from_letter(s[0]) is Some && Rank::from_digit(s[1]) is Some {
            Ok(
                Coordinate {
                    file: File::from_letter(s[0])->Some_0,
                    rank: Rank::from_digit(s[1])->Some_0,
                },
            )
        } else {
            Err(Error::InvalidPositionString)
        }
    }

    /// Whether both the file and the rank are on the board.
    pub fn is_valid(&self) -> (r: bool)
        ensures
            r == self.valid(),
    {
        self.file.is_valid() && self.rank.is_valid()
    }

    /// Builds a coordinate from a zero-based column and row: `x = 0` is file A,
    /// `y = 0` is rank one.
    pub fn make_coordinate(x: i8, y: i8) -> (r: Coordinate)
        ensures
            r == Coordinate::at(x as int, y as int),
    {
        let file = if x < 8 {
            File::from(x + 1)
        } else {
            File::Invalid
        };
        let rank = if y < 8 {
            Rank::from(y + 1)
        } else {
            Rank::Invalid
        };
        Coordinate { file, rank }
    }

    /// This coordinate moved by `(dx, dy)`, each axis computed on its own;
    /// an axis that leaves the board, or was off it, is `Invalid`.
    pub fn add(self, delta: (i8, i8)) -> (r: Coordinate)
        ensures
            r == self.shifted(delta.0 as int, delta.1 as int),
    {
        let file = if self.file.is_valid() && -8 <= delta.0 && delta.0 <= 8 {
            File::from(self.file.as_i8() + delta.0)
        } else {
            File::Invalid
        };
        let rank = if self.rank.is_valid() && -8 <= delta.1 && delta.1 <= 8 {
            Rank::from(self.rank.as_i8() + delta.1)
        } else {
            Rank::Invalid
        };
        Coordinate { file, rank }
    }

    /// Parses a two-character position string such as `"e4"` or `"E4"`: a file
    /// letter a-h in either case, then a rank digit 1-8.
    pub fn get_coordinate(position_str: &str) -> (r: Result<Coordinate, Error>)
        ensures
            r == Coordinate::parse(position_str@),
    {
        if position_str.unicode_len() != 2 {
            return Err(Error::InvalidPositionString);
        }
        let file = match File::parse_char(position_str.get_char(0)) {
            Some(f) => f,
            None => {
                return Err(Error::InvalidPositionString);
            },
        };
        let rank = match Rank::parse_char(position_str.get_char(1)) {
            Some(r) => r,
            None => {
                return Err(Error::InvalidPositionString);
            },
        };
        Ok(Coordinate { file, rank })
    }

    /// The two-character text of the coordinate: upper-case file letter and rank
    /// digit, as in `"E4"`; `'!'` stands for an `Invalid` axis.
    pub fn to_string(&self) -> (r: String)
        ensures
            r@ == self.text(),
    {
        let mut s = String::new();
        push_char(&mut s, self.file.to_char());
        push_char(&mut s, self.rank.to_char());
        proof {
            assert(s@ =~= self.text());
        }
        s
    }
}

/// Parses a two-character position string; the same as
/// [`Coordinate::get_coordinate`].
pub fn get_coordinate(position_str: &str) -> (r: Result<Coordinate, Error>)
    ensures
        r == Coordinate::parse(position_str@),
{
    Coordinate::get_coordinate(position_str)
}

/// Relies on `String::push`: appends one character at the end.
#[verifier::external_body]
pub(crate) fn push_char(s: &mut String, c: char)
    ensures
        final(s)@ == old(s)@.push(c),
{
    s.push(c);
}

/// Reading back the text of a coordinate on the board gives the coordinate.
pub proof fn lemma_coordinate_text_round_trip(c: Coordinate)
    requires
        c.valid(),
    ensures
        Coordinate::parse(c.text()) == Ok::<Coordinate, Error>(c),
{
}

/// Every two-character string of a file letter (either case) and a rank digit
/// reads as a coordinate, and the text of that coordinate reads back as it.
pub proof fn lemma_position_string_round_trip(s: Seq<char>)
    requires
        s.len() == 2,
        File::from_letter(s[0]) is Some,
        Rank::from_digit(s[1]) is Some,
    ensures
        Coordinate::parse(s) is Ok,
        Coordinate::parse(s)->Ok_0.valid(),
        Coordinate::parse(Coordinate::parse(s)->Ok_0.text()) == Coordinate::parse(s),
{
}

} // verus!
