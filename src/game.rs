use vstd::prelude::*;

use crate::board::{start_model, Board, BoardModel};
use crate::piece::Color;

verus! {

/// A game of chess played on one board.
pub struct Game {
    board: Board,
}

impl Game {
    /// The state of the game's board.
    pub closed spec fn state(&self) -> BoardModel {
        self.board@
    }

    /// A game at the standard starting position.
    pub fn new() -> (r: Game)
        ensures
            r.state() == start_model(),
    {
        Game { board: Board::new() }
    }

    /// The side to move.
    pub fn current_player(&self) -> (r: Color)
        ensures
            r == self.state().active_color,
    {
        self.board.get_active_color()
    }

    /// The game's board.
    pub fn get_board(&self) -> (r: &Board)
        ensures
            r@ == self.state(),
    {
        &self.board
    }
}

} // verus!
