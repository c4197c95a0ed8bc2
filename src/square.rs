use vstd::prelude::*;

use crate::coord::Coordinate;
use crate::piece::Piece;

verus! {

/// The fixed shade of a square on the board.
#[derive(Clone, Copy, Debug, PartialEq, Eq, Structural)]
pub enum SquareColor {
    Light,
    Dark,
}

impl SquareColor {
    /// The other shade.
    pub open spec fn flipped(self) -> SquareColor {
        match self {
            SquareColor::Light => SquareColor::Dark,
            SquareColor::Dark => SquareColor::Light,
        }
    }

    /// The other shade.
    pub fn flip(&self) -> (r: SquareColor)
        ensures
            r == self.flipped(),
    {
        match self {
            SquareColor::Light => SquareColor::Dark,
            SquareColor::Dark => SquareColor::Light,
        }
    }

    /// The single-character display form: `'L'` or `'D'`.
    pub fn to_char(&self) -> (r: char)
        ensures
            r == (if *self == SquareColor::Light { 'L' } else { 'D' }),
    {
        match self {
            SquareColor::Light => 'L',
            SquareColor::Dark => 'D',
        }
    }
}

/// One cell of the board: a fixed shade and address, and the piece on it, if any.
pub struct Square {
    color: SquareColor,
    coord: Coordinate,
    piece: Option<Piece>,
}

impl Square {
    /// The shade of the square.
    pub closed spec fn shade(&self) -> SquareColor {
        self.color
    }

    /// The address of the square.
    pub closed spec fn address(&self) -> Coordinate {
        self.coord
    }

    /// The piece on the square, if any.
    pub closed spec fn occupant(&self) -> Option<Piece> {
        self.piece
    }

    /// An empty square of the given shade at the given address.
    pub fn new(color: SquareColor, coord: Coordinate) -> (r: Square)
        ensures
            r.shade() == color,
            r.address() == coord,
            r.occupant() is None,
    {
        Square { color, coord, piece: None }
    }

    /// The shade of the square.
    pub fn get_color(&self) -> (r: &SquareColor)
        ensures
            *r == self.shade(),
    {
        &self.color
    }

    /// The address of the square.
    pub fn get_coord(&self) -> (r: &Coordinate)
        ensures
            *r == self.address(),
    {
        &self.coord
    }

    /// The piece on the square, if any.
    pub fn get_piece(&self) -> (r: &Option<Piece>)
        ensures
            *r == self.occupant(),
    {
        &self.piece
    }

    /// Puts `piece` on the square (or empties it with `None`); the shade and the
    /// address stay.
    pub fn set_piece(&mut self, piece: Option<Piece>)
        ensures
            final(self).occupant() == piece,
            final(self).shade() == old(self).shade(),
            final(self).address() == old(self).address(),
    {
        self.piece = piece;
    }
}

} // verus!
