use vstd::prelude::*;

verus! {

/// The ways a parse or a lookup can fail.
#[derive(Clone, Copy, Debug, PartialEq, Eq, Structural)]
pub enum Error {
    /// A board position such as `"e4"` could not be read.
    InvalidPositionString,
    /// A zero-based column/row pair lies outside the board.
    InvalidRawCoordinatePair,
    /// A FEN string is malformed in its structure or in one of its fields.
    InvalidFENString,
}

} // verus!
