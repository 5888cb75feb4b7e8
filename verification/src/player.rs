//! A trait that defines behaviour for a tic-tac-toe player.

use crate::board::{Board, Position};
use crate::grid::Grid;
use vstd::prelude::*;

verus! {

/// A generic player of the game.
pub trait Player {
    /// The cells that this player may choose on a grid: every free cell,
    /// unless the player binds itself to a rule.
    open spec fn may_choose(&self, grid: Grid, cell: int) -> bool {
        grid.is_free(cell)
    }

    /// Implement take_turn() to return the desired Position,
    /// given an in-progress game Board. The position must be unoccupied on
    /// that board and one that the player may choose; what the player may
    /// choose stays the same from turn to turn.
    fn take_turn(&mut self, board: &Board) -> (position: Position)
        requires
            board@.result() is InProgress,
        ensures
            board@.is_free(position.cell()),
            old(self).may_choose(board@, position.cell()),
            forall|grid: Grid, cell: int|
                #[trigger] final(self).may_choose(grid, cell) == old(self).may_choose(grid, cell),
    ;
}

/// A boxed player plays as the player in the box.
impl<P: Player + ?Sized> Player for Box<P> {
    open spec fn may_choose(&self, grid: Grid, cell: int) -> bool {
        (**self).may_choose(grid, cell)
    }

    fn take_turn(&mut self, board: &Board) -> (position: Position) {
        (**self).take_turn(board)
    }
}

} // verus!
