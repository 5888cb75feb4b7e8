//! A plain way to avoid defeat: complete a line if possible, else stop the
//! opponent from completing one, else take a favourite cell, else the first
//! free cell. Where this holds out against every reply, the optimal player is
//! not beaten either.

use crate::board::{GameResult, Token};
use crate::grid::Grid;
use vstd::prelude::*;

verus! {

impl Grid {
    /// Both cells hold the token.
    #[verifier::inline]
    pub open spec fn pair(self, token: Token, a: int, b: int) -> bool {
        self.cells[a] == Some(token) && self.cells[b] == Some(token)
    }

    /// The token would complete a line by moving to the cell: the cell is
    /// free, and the token holds the other two cells of a line through it.
    #[verifier::inline]
    pub open spec fn completes(self, token: Token, cell: int) -> bool {
        self.is_free(cell) && if cell == 0 {
            self.pair(token, 1, 2) || self.pair(token, 3, 6) || self.pair(token, 4, 8)
        } else if cell == 1 {
            self.pair(token, 0, 2) || self.pair(token, 4, 7)
        } else if cell == 2 {
            self.pair(token, 0, 1) || self.pair(token, 5, 8) || self.pair(token, 4, 6)
        } else if cell == 3 {
            self.pair(token, 4, 5) || self.pair(token, 0, 6)
        } else if cell == 4 {
            self.pair(token, 3, 5) || self.pair(token, 1, 7) || self.pair(token, 0, 8)
                || self.pair(token, 2, 6)
        } else if cell == 5 {
            self.pair(token, 3, 4) || self.pair(token, 2, 8)
        } else if cell == 6 {
            self.pair(token, 7, 8) || self.pair(token, 0, 3) || self.pair(token, 4, 2)
        } else if cell == 7 {
            self.pair(token, 6, 8) || self.pair(token, 1, 4)
        } else {
            self.pair(token, 6, 7) || self.pair(token, 2, 5) || self.pair(token, 0, 4)
        }
    }

    /// The first cell, in row-major order, on which the token would complete a line.
    #[verifier::inline]
    pub open spec fn first_completing(self, token: Token) -> Option<int> {
        if self.completes(token, 0) {
            Some(0)
        } else if self.completes(token, 1) {
            Some(1)
        } else if self.completes(token, 2) {
            Some(2)
        } else if self.completes(token, 3) {
            Some(3)
        } else if self.completes(token, 4) {
            Some(4)
        } else if self.completes(token, 5) {
            Some(5)
        } else if self.completes(token, 6) {
            Some(6)
        } else if self.completes(token, 7) {
            Some(7)
        } else if self.completes(token, 8) {
            Some(8)
        } else {
            None
        }
    }

    /// The first free cell in row-major order, or 8 if there is none.
    #[verifier::inline]
    pub open spec fn first_free(self) -> int {
        if self.is_free(0) {
            0
        } else if self.is_free(1) {
            1
        } else if self.is_free(2) {
            2
        } else if self.is_free(3) {
            3
        } else if self.is_free(4) {
            4
        } else if self.is_free(5) {
            5
        } else if self.is_free(6) {
            6
        } else if self.is_free(7) {
            7
        } else {
            8
        }
    }

    /// The defender's move: complete a line, else block the opponent's, else
    /// take the first favourite cell, else the second, else the first free
    /// cell.
    #[verifier::inline]
    pub open spec fn defence(self, me: Token, first: int, second: int) -> int {
        if let Some(cell) = self.first_completing(me) {
            cell
        } else if let Some(cell) = self.first_completing(me.other()) {
            cell
        } else if self.is_free(first) {
            first
        } else if self.is_free(second) {
            second
        } else {
            self.first_free()
        }
    }

    /// One of the three cells holds the token.
    #[verifier::inline]
    pub open spec fn guards(self, token: Token, a: int, b: int, c: int) -> bool {
        self.cells[a] == Some(token) || self.cells[b] == Some(token) || self.cells[c] == Some(
            token,
        )
    }

    /// The token has a cell on each of the eight lines, so that its opponent
    /// can complete none.
    #[verifier::inline]
    pub open spec fn guards_all(self, token: Token) -> bool {
        &&& self.guards(token, 0, 1, 2)
        &&& self.guards(token, 3, 4, 5)
        &&& self.guards(token, 6, 7, 8)
        &&& self.guards(token, 0, 3, 6)
        &&& self.guards(token, 1, 4, 7)
        &&& self.guards(token, 2, 5, 8)
        &&& self.guards(token, 0, 4, 8)
        &&& self.guards(token, 6, 4, 2)
    }

    /// The defender, moving by `defence`, is not beaten from this grid on,
    /// whatever the opponent plays. `mover` is the token whose turn it is.
    pub open spec fn defended(self, defender: Token, mover: Token, first: int, second: int) -> bool
        decreases 10 - self.turn,
    {
        if self.guards_all(defender) {
            true
        } else if self.has_line(defender.other()) {
            false
        } else if self.has_line(defender) || self.turn >= 10 {
            true
        } else if mover == defender {
            let cell = self.defence(defender, first, second);
            self.is_free(cell) && self.place(cell, mover).defended(
                defender,
                mover.other(),
                first,
                second,
            )
        } else {
            &&& self.is_free(0) ==> self.place(0, mover).defended(defender, defender, first, second)
            &&& self.is_free(1) ==> self.place(1, mover).defended(defender, defender, first, second)
            &&& self.is_free(2) ==> self.place(2, mover).defended(defender, defender, first, second)
            &&& self.is_free(3) ==> self.place(3, mover).defended(defender, defender, first, second)
            &&& self.is_free(4) ==> self.place(4, mover).defended(defender, defender, first, second)
            &&& self.is_free(5) ==> self.place(5, mover).defended(defender, defender, first, second)
            &&& self.is_free(6) ==> self.place(6, mover).defended(defender, defender, first, second)
            &&& self.is_free(7) ==> self.place(7, mover).defended(defender, defender, first, second)
            &&& self.is_free(8) ==> self.place(8, mover).defended(defender, defender, first, second)
        }
    }

    /// A token with a cell on every line is not beaten, however the game goes on.
    pub proof fn lemma_guarded_is_unbeaten(self, defender: Token)
        requires
            self.valid(),
            self.guards_all(defender),
        ensures
            self.eventual_result() != GameResult::Win(defender.other()),
        decreases 10 - self.turn,
    {
        if self.result() is InProgress {
            let cell = self.best_move();
            self.lemma_best_move_is_free();
            self.lemma_move_in_progress(cell);
            self.lemma_place_valid(cell, self.to_move());
            self.play(cell).lemma_guarded_is_unbeaten(defender);
        }
    }

    /// Where the plain defence holds out, the optimal player is not beaten:
    /// with the center taken, the eventual result is no win for the
    /// defender's opponent.
    pub proof fn lemma_defended_is_unbeaten(self, defender: Token, first: int, second: int)
        requires
            self.valid(),
            !self.is_free(4),
            self.defended(defender, self.to_move(), first, second),
        ensures
            self.eventual_result() != GameResult::Win(defender.other()),
        decreases 10 - self.turn,
    {
        self.lemma_eventual_result_is_final();
        if self.guards_all(defender) {
            self.lemma_guarded_is_unbeaten(defender);
        } else if self.result() is InProgress {
            let cell = if self.to_move() == defender {
                self.defence(defender, first, second)
            } else {
                self.best_move()
            };
            self.lemma_best_move_is_free();
            self.lemma_move_in_progress(cell);
            self.lemma_place_valid(cell, self.to_move());
            let next = self.play(cell);
            assert(next.to_move() == self.to_move().other());
            assert(next.defended(defender, next.to_move(), first, second));
            next.lemma_defended_is_unbeaten(defender, first, second);
            next.lemma_eventual_result_is_final();
            if self.to_move() == defender {
                self.lemma_no_better_move(cell);
            }
        }
    }
}

} // verus!
