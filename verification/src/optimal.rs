//! An optimal player, who never loses!

use crate::board::{Board, GameResult, Position, Token};
use crate::grid::Grid;
use crate::player::Player;
use vstd::prelude::*;

verus! {

impl Grid {
    /// The player to move can go to `cell`, and the game then ends in `outcome`
    /// if both players go on as the optimal player does.
    pub open spec fn leads_to(self, cell: int, outcome: GameResult) -> bool
        decreases 10 - self.turn, 0int, 0int,
    {
        self.turn <= 9 && self.is_free(cell) && self.play(cell).eventual_result() == outcome
    }

    /// The first cell from `from` on, in row-major order, that leads to `outcome`.
    pub open spec fn first_leading_to(self, outcome: GameResult, from: int) -> Option<int>
        decreases 10 - self.turn, 1int, 9 - from,
    {
        if from >= 9 {
            None
        } else if self.leads_to(from, outcome) {
            Some(from)
        } else {
            self.first_leading_to(outcome, from + 1)
        }
    }

    /// The cell that the optimal player chooses: the center while it is free;
    /// else the first cell that leads to a win for the player to move; else
    /// the first that leads to a draw; else the first free cell.
    pub open spec fn best_move(self) -> int
        decreases 10 - self.turn, 2int, 0int,
    {
        if self.is_free(4) {
            4
        } else if let Some(cell) = self.first_leading_to(GameResult::Win(self.to_move()), 0) {
            cell
        } else if let Some(cell) = self.first_leading_to(GameResult::Draw, 0) {
            cell
        } else {
            self.free_cells()[0]
        }
    }

    /// The result that the game reaches from this grid when both players
    /// choose every further move as the optimal player does.
    pub open spec fn eventual_result(self) -> GameResult
        decreases 10 - self.turn, 3int, 0int,
    {
        if self.result() is InProgress {
            self.play(self.best_move()).eventual_result()
        } else {
            self.result()
        }
    }
}

impl Grid {
    /// If no cell from `from` up to `cell` leads to the outcome, the search
    /// from `from` is the search from `cell`.
    pub proof fn lemma_first_skips(self, outcome: GameResult, from: int, cell: int)
        requires
            0 <= from <= cell <= 9,
            forall|other: int| from <= other < cell ==> !self.leads_to(other, outcome),
        ensures
            self.first_leading_to(outcome, from) == self.first_leading_to(outcome, cell),
        decreases cell - from,
    {
        if from < cell {
            assert(!self.leads_to(from, outcome));
            self.lemma_first_skips(outcome, from + 1, cell);
        }
    }

    /// What the search finds leads to the outcome, and no earlier cell does.
    pub proof fn lemma_first_leading_to(self, outcome: GameResult, from: int)
        requires
            0 <= from <= 9,
        ensures
            match self.first_leading_to(outcome, from) {
                Some(cell) => from <= cell < 9 && self.leads_to(cell, outcome) && forall|
                    other: int,
                | from <= other < cell ==> !self.leads_to(other, outcome),
                None => forall|other: int| from <= other < 9 ==> !self.leads_to(other, outcome),
            },
        decreases 9 - from,
    {
        if from < 9 && !self.leads_to(from, outcome) {
            self.lemma_first_leading_to(outcome, from + 1);
        }
    }

    /// If none of the first `tried` free cells leads to the outcome, the
    /// search for it may start at the free cell that comes next, and finds
    /// nothing if all free cells were tried.
    pub proof fn lemma_tried_in_vain(self, outcome: GameResult, tried: int)
        requires
            0 <= tried <= self.free_cells().len(),
            forall|i: int|
                0 <= i < tried ==> self.play(#[trigger] self.free_cells()[i]).eventual_result()
                    != outcome,
        ensures
            tried < self.free_cells().len() ==> self.is_free(self.free_cells()[tried])
                && self.first_leading_to(outcome, 0) == self.first_leading_to(
                outcome,
                self.free_cells()[tried],
            ),
            tried < self.free_cells().len() && self.turn <= 9 && self.play(
                self.free_cells()[tried],
            ).eventual_result() == outcome ==> self.first_leading_to(outcome, 0) == Some(
                self.free_cells()[tried],
            ),
            tried == self.free_cells().len() ==> self.first_leading_to(outcome, 0) is None,
    {
        let free = self.free_cells();
        let limit = if tried < free.len() {
            free[tried]
        } else {
            9
        };
        self.lemma_free_below(9);
        assert forall|other: int| 0 <= other < limit implies !self.leads_to(other, outcome) by {
            if self.is_free(other) {
                let i = choose|i: int| 0 <= i < free.len() && free[i] == other;
                assert(self.play(free[i]).eventual_result() != outcome);
            }
        }
        self.lemma_first_skips(outcome, 0, limit);
        if tried < free.len() && self.turn <= 9 && self.play(free[tried]).eventual_result()
            == outcome {
            assert(self.leads_to(free[tried], outcome));
        }
    }

    /// While the game is in progress the optimal player's choice is a free cell.
    pub proof fn lemma_best_move_is_free(self)
        requires
            self.valid(),
            self.result() is InProgress,
        ensures
            self.is_free(self.best_move()),
    {
        if !self.is_free(4) {
            self.lemma_first_leading_to(GameResult::Win(self.to_move()), 0);
            self.lemma_first_leading_to(GameResult::Draw, 0);
            self.lemma_free_count();
            self.lemma_free_below(9);
        }
    }
}

impl GameResult {
    /// What a result is worth to a token: 2 for its own win, 0 for the
    /// opponent's, 1 otherwise.
    pub open spec fn worth(self, token: Token) -> int {
        if self == GameResult::Win(token) {
            2
        } else if self == GameResult::Win(token.other()) {
            0
        } else {
            1
        }
    }
}

impl Grid {
    /// The eventual result of a game is a win or a draw, and it is the result
    /// of the grid itself once the game is over.
    pub proof fn lemma_eventual_result_is_final(self)
        requires
            self.valid(),
        ensures
            !(self.eventual_result() is InProgress),
            !(self.result() is InProgress) ==> self.eventual_result() == self.result(),
        decreases 10 - self.turn,
    {
        if self.result() is InProgress {
            self.lemma_best_move_is_free();
            self.lemma_move_in_progress(self.best_move());
            self.lemma_place_valid(self.best_move(), self.to_move());
            self.play(self.best_move()).lemma_eventual_result_is_final();
        }
    }

    /// The optimal player's choice is the best there is: once the center is
    /// taken, no move leads to a result that is worth more to the player to
    /// move than the eventual result.
    pub proof fn lemma_no_better_move(self, cell: int)
        requires
            self.valid(),
            self.result() is InProgress,
            !self.is_free(4),
            self.is_free(cell),
        ensures
            self.play(cell).eventual_result().worth(self.to_move())
                <= self.eventual_result().worth(self.to_move()),
    {
        let me = self.to_move();
        self.lemma_first_leading_to(GameResult::Win(me), 0);
        self.lemma_first_leading_to(GameResult::Draw, 0);
        self.lemma_move_in_progress(cell);
        self.lemma_place_valid(cell, me);
        self.play(cell).lemma_eventual_result_is_final();
        let reached = self.play(cell).eventual_result();
        assert(self.eventual_result() == self.play(self.best_move()).eventual_result());
        match self.first_leading_to(GameResult::Win(me), 0) {
            Some(winning) => {
                assert(self.best_move() == winning);
                assert(self.leads_to(winning, GameResult::Win(me)));
            },
            None => {
                assert(!self.leads_to(cell, GameResult::Win(me)));
                assert(reached != GameResult::Win(me));
                match self.first_leading_to(GameResult::Draw, 0) {
                    Some(drawing) => {
                        assert(self.best_move() == drawing);
                        assert(self.leads_to(drawing, GameResult::Draw));
                    },
                    None => {
                        assert(!self.leads_to(cell, GameResult::Draw));
                        assert(reached == GameResult::Win(me.other()));
                    },
                }
            },
        }
    }
}

/// The OptimalPlayer never loses a game.
pub struct OptimalPlayer {}

impl Player for OptimalPlayer {
    /// The optimal player allows itself one cell: the best move.
    open spec fn may_choose(&self, grid: Grid, cell: int) -> bool {
        cell == grid.best_move()
    }

    fn take_turn(&mut self, board: &Board) -> (position: Position)
        ensures
            position.cell() == board@.best_move(),
    {
        self.get_best_move(board)
    }
}

impl OptimalPlayer {
    /// Chooses the move for the player whose turn it is: the center while it
    /// is free; else the first empty position, in row-major order, from which
    /// the player wins; else the first from which the game is drawn; else the
    /// first empty position.
    pub fn get_best_move(&self, board: &Board) -> (position: Position)
        requires
            board@.result() is InProgress,
        ensures
            position.cell() == board@.best_move(),
            board@.is_free(position.cell()),
        decreases 10 - board@.turn, 0int,
    {
        proof {
            use_type_invariant(board);
            board@.lemma_best_move_is_free();
        }
        // To speed things up, first check if the center is still available.
        let center = Position::center();
        if board.is_position_unused(center) {
            return center;
        }
        let who_am_i = board.whose_turn();
        let candidates = board.empty_positions();
        let ghost grid = board@;
        let ghost win = GameResult::Win(who_am_i);
        proof {
            grid.lemma_free_count();
        }
        let mut results: Vec<GameResult> = Vec::with_capacity(8);
        let mut index: usize = 0;
        while index < candidates.len()
            invariant
                index <= candidates.len(),
                grid == board@,
                grid.valid(),
                grid.result() is InProgress,
                !grid.is_free(4),
                who_am_i == grid.to_move(),
                win == GameResult::Win(who_am_i),
                Position::cells(candidates@) == grid.free_cells(),
                results.len() == index,
                forall|i: int|
                    0 <= i < index ==> results[i] == grid.play(
                        #[trigger] grid.free_cells()[i],
                    ).eventual_result() && results[i] != win,
            decreases candidates.len() - index,
        {
            let potential_move = candidates[index];
            proof {
                assert(grid.free_cells()[index as int] == potential_move.cell());
                grid.lemma_tried_in_vain(win, index as int);
            }
            let mut next_board = *board;
            let placed = next_board.add_move(who_am_i, potential_move);
            assert(placed is Ok);
            let result = self.get_eventual_game_result(&next_board);
            if result == GameResult::Win(who_am_i) {
                return potential_move;
            }
            results.push(result);
            index += 1;
        }
        proof {
            grid.lemma_tried_in_vain(win, index as int);
        }

        let mut index: usize = 0;
        while index < candidates.len()
            invariant
                index <= candidates.len(),
                grid == board@,
                grid.turn <= 9,
                !grid.is_free(4),
                grid.first_leading_to(GameResult::Win(grid.to_move()), 0) is None,
                Position::cells(candidates@) == grid.free_cells(),
                results.len() == candidates.len(),
                forall|i: int|
                    0 <= i < results.len() ==> results[i] == grid.play(
                        #[trigger] grid.free_cells()[i],
                    ).eventual_result(),
                forall|i: int| 0 <= i < index ==> #[trigger] results[i] != GameResult::Draw,
            decreases candidates.len() - index,
        {
            proof {
                assert(grid.free_cells()[index as int] == candidates[index as int].cell());
                grid.lemma_tried_in_vain(GameResult::Draw, index as int);
            }
            if results[index] == GameResult::Draw {
                return candidates[index];
            }
            index += 1;
        }
        proof {
            grid.lemma_tried_in_vain(GameResult::Draw, index as int);
            assert(grid.free_cells()[0] == candidates[0].cell());
        }
        candidates[0]
    }

    /// The result that the game reaches from this board when both players
    /// choose every further move with `get_best_move`.
    pub fn get_eventual_game_result(&self, board: &Board) -> (result: GameResult)
        ensures
            result == board@.eventual_result(),
            !(result is InProgress),
        decreases 10 - board@.turn, 1int,
    {
        proof {
            use_type_invariant(board);
            board@.lemma_eventual_result_is_final();
        }
        let result = board.get_game_result();
        if result != GameResult::InProgress {
            result
        } else {
            let mut next_board = *board;
            let best_move = self.get_best_move(&next_board);
            proof {
                board@.lemma_move_in_progress(best_move.cell());
            }
            let placed = next_board.add_move(next_board.whose_turn(), best_move);
            assert(placed is Ok);
            self.get_eventual_game_result(&next_board)
        }
    }
}

} // verus!
