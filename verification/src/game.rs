//! A single game, played from the empty board to its end.

use crate::board::{Board, GameResult, Token};
use crate::grid::Grid;
use crate::player::Player;
use vstd::prelude::*;

verus! {

/// Game represents a single game played between two players
pub struct Game {
    board: Board,
}

impl View for Game {
    type V = Grid;

    closed spec fn view(&self) -> Grid {
        self.board@
    }
}

impl Game {
    /// A game has been played to its end.
    #[verifier::type_invariant]
    pub open spec fn finished(&self) -> bool {
        self@.valid() && !(self@.result() is InProgress)
    }

    /// Every move of the sequence is one that the player whose turn it was
    /// may choose: `x` where X was to move, `o` where O was.
    pub open spec fn chosen_by<X: Player, O: Player>(moves: Seq<int>, x: X, o: O) -> bool {
        forall|k: int|
            0 <= k < moves.len() ==> if Grid::after(#[trigger] moves.take(k)).to_move()
                == Token::X {
                x.may_choose(Grid::after(moves.take(k)), moves[k])
            } else {
                o.may_choose(Grid::after(moves.take(k)), moves[k])
            }
    }

    /// Creates and plays a game between two players, given their strategies.
    ///
    /// X moves first and the players take turns, each asked for a position
    /// while the game is in progress. The final board is the outcome of
    /// exactly the moves they chose.
    pub fn new<X: Player, O: Player>(x: X, o: O) -> (game: Game)
        ensures
            game.finished(),
            exists|moves: Seq<int>|
                Grid::played(moves) && Grid::after(moves) == game@ && Game::chosen_by(
                    moves,
                    x,
                    o,
                ),
    {
        let ghost first = x;
        let ghost second = o;
        let mut x = x;
        let mut o = o;
        let mut board = Board::new();
        let ghost mut moves: Seq<int> = Seq::empty();
        proof {
            Grid::lemma_empty_valid();
        }
        loop
            invariant
                board@.valid(),
                Grid::played(moves),
                Grid::after(moves) == board@,
                Game::chosen_by(moves, first, second),
                forall|grid: Grid, cell: int|
                    #[trigger] x.may_choose(grid, cell) == first.may_choose(grid, cell),
                forall|grid: Grid, cell: int|
                    #[trigger] o.may_choose(grid, cell) == second.may_choose(grid, cell),
            ensures
                !(board@.result() is InProgress),
            decreases 10 - board@.turn,
        {
            let result = board.get_game_result();
            if result != GameResult::InProgress {
                break ;
            }
            let whose_turn = board.whose_turn();
            let their_move = if whose_turn == Token::X {
                x.take_turn(&board)
            } else {
                o.take_turn(&board)
            };
            proof {
                board@.lemma_move_in_progress(their_move.cell());
                let longer = moves.push(their_move.cell());
                assert(longer.drop_last() =~= moves);
                assert(longer.take(moves.len() as int) =~= moves);
                assert forall|k: int| 0 <= k < moves.len() implies #[trigger] longer.take(k)
                    == moves.take(k) by {
                    assert(longer.take(k) =~= moves.take(k));
                }
                moves = longer;
            }
            let placed = board.add_move(whose_turn, their_move);
            assert(placed is Ok);
        }
        Game { board }
    }

    /// Returns the result of the game
    pub fn result(&self) -> (result: GameResult)
        ensures
            result == self@.result(),
            !(result is InProgress),
    {
        proof {
            use_type_invariant(self);
        }
        self.board.get_game_result()
    }

    /// The board as the game left it.
    pub fn board(&self) -> (board: Board)
        ensures
            board@ == self@,
    {
        self.board
    }
}

} // verus!
