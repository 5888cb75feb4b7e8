//! The optimal player draws against itself and is never beaten.
//!
//! The argument has two parts. After every opening a plain defence holds out
//! for the side in question, so the eventual result of the opening is no
//! defeat for it. From then on the optimal player keeps the eventual result
//! on its own turns, and no move of the opponent can lead to anything better
//! for the opponent than the eventual result.

use crate::board::{GameResult, Token};
use crate::game::Game;
use crate::grid::Grid;
use crate::openings::{
    lemma_bottom_holds_for_o, lemma_bottom_left_holds_for_o, lemma_bottom_right_holds_for_o,
    lemma_center_holds_for_o, lemma_center_holds_for_x, lemma_left_holds_for_o,
    lemma_right_holds_for_o, lemma_top_holds_for_o, lemma_top_left_holds_for_o,
    lemma_top_right_holds_for_o,
};
use crate::optimal::OptimalPlayer;
use crate::player::Player;
use vstd::prelude::*;

verus! {

impl Grid {
    /// Wherever it was the token's turn in the course of the moves, the move
    /// made was the optimal player's choice.
    pub open spec fn follows_best(moves: Seq<int>, token: Token) -> bool {
        forall|k: int|
            0 <= k < moves.len() && Grid::after(#[trigger] moves.take(k)).to_move() == token
                ==> moves[k] == Grid::after(moves.take(k)).best_move()
    }

    /// The grid after one move from the empty grid is valid, with the game in
    /// progress, and so is the grid after O's answer in the center.
    proof fn lemma_opening(first: int)
        requires
            0 <= first < 9,
        ensures
            Grid::empty().play(first).valid(),
            Grid::empty().play(first).result() is InProgress,
            Grid::empty().play(first).to_move() == Token::O,
            Grid::empty().play(first).is_free(4) <==> first != 4,
            first != 4 ==> Grid::empty().play(first).play(4).valid() && !Grid::empty().play(
                first,
            ).play(4).is_free(4),
    {
        let start = Grid::empty();
        Grid::lemma_empty_valid();
        start.lemma_move_in_progress(first);
        start.lemma_place_valid(first, Token::X);
        let opened = start.play(first);
        if first != 4 {
            opened.lemma_move_in_progress(4);
            opened.lemma_place_valid(4, Token::O);
        }
    }

    /// The optimal player, moving first, is not beaten: the eventual result
    /// of the empty grid is no win for O.
    pub proof fn lemma_first_player_unbeaten()
        ensures
            Grid::empty().eventual_result() != GameResult::Win(Token::O),
    {
        Grid::lemma_empty_valid();
        Grid::lemma_opening(4);
        lemma_center_holds_for_x();
        Grid::empty().play(4).lemma_defended_is_unbeaten(Token::X, 8, 3);
        assert(Grid::empty().best_move() == 4);
    }

    /// The optimal player, moving second, is not beaten: whatever X's first
    /// move, the eventual result after it is no win for X.
    pub proof fn lemma_second_player_unbeaten(first: int)
        requires
            0 <= first < 9,
        ensures
            Grid::empty().play(first).eventual_result() != GameResult::Win(Token::X),
    {
        Grid::lemma_opening(first);
        let opened = Grid::empty().play(first);
        if first == 4 {
            lemma_center_holds_for_o();
            opened.lemma_defended_is_unbeaten(Token::O, 0, 2);
        } else {
            assert(opened.best_move() == 4);
            let answered = opened.play(4);
            if first == 0 {
                lemma_top_left_holds_for_o();
                answered.lemma_defended_is_unbeaten(Token::O, 8, 3);
            } else if first == 1 {
                lemma_top_holds_for_o();
                answered.lemma_defended_is_unbeaten(Token::O, 2, 3);
            } else if first == 2 {
                lemma_top_right_holds_for_o();
                answered.lemma_defended_is_unbeaten(Token::O, 2, 3);
            } else if first == 3 {
                lemma_left_holds_for_o();
                answered.lemma_defended_is_unbeaten(Token::O, 0, 2);
            } else if first == 5 {
                lemma_right_holds_for_o();
                answered.lemma_defended_is_unbeaten(Token::O, 8, 3);
            } else if first == 6 {
                lemma_bottom_left_holds_for_o();
                answered.lemma_defended_is_unbeaten(Token::O, 2, 3);
            } else if first == 7 {
                lemma_bottom_holds_for_o();
                answered.lemma_defended_is_unbeaten(Token::O, 8, 3);
            } else {
                lemma_bottom_right_holds_for_o();
                answered.lemma_defended_is_unbeaten(Token::O, 8, 3);
            }
        }
    }

    /// Two optimal players draw: the eventual result of the empty grid is a draw.
    pub proof fn lemma_optimal_players_draw()
        ensures
            Grid::empty().eventual_result() == GameResult::Draw,
    {
        Grid::lemma_empty_valid();
        Grid::lemma_opening(4);
        Grid::lemma_first_player_unbeaten();
        Grid::lemma_second_player_unbeaten(4);
        Grid::empty().lemma_eventual_result_is_final();
        assert(Grid::empty().best_move() == 4);
    }

    /// Dropping the last move leaves a course of the game in which the token
    /// still followed the optimal player's choices.
    proof fn lemma_follows_best_earlier(moves: Seq<int>, token: Token)
        requires
            moves.len() > 0,
            Grid::follows_best(moves, token),
        ensures
            Grid::follows_best(moves.drop_last(), token),
            Grid::after(moves.drop_last()).to_move() == token ==> moves.last() == Grid::after(
                moves.drop_last(),
            ).best_move(),
    {
        let earlier = moves.drop_last();
        assert(moves.take(moves.len() - 1) =~= earlier);
        assert forall|k: int|
            0 <= k < earlier.len() && Grid::after(#[trigger] earlier.take(k)).to_move()
                == token implies earlier[k] == Grid::after(earlier.take(k)).best_move() by {
            assert(earlier.take(k) =~= moves.take(k));
        }
    }

    /// In the course of a game in which the token follows the optimal
    /// player's choices, the eventual result is never a win for the other
    /// token, and the center is taken by the third turn.
    proof fn lemma_course(moves: Seq<int>, token: Token)
        requires
            Grid::played(moves),
            Grid::follows_best(moves, token),
        ensures
            Grid::after(moves).valid(),
            Grid::after(moves).turn == moves.len() + 1,
            Grid::after(moves).eventual_result() != GameResult::Win(token.other()),
            Grid::after(moves).is_free(4) ==> moves.len() == 0 || (moves.len() == 1 && token
                == Token::O),
        decreases moves.len(),
    {
        if moves.len() == 0 {
            Grid::lemma_optimal_players_draw();
            Grid::lemma_empty_valid();
        } else {
            let earlier = moves.drop_last();
            let before = Grid::after(earlier);
            let cell = moves.last();
            Grid::lemma_follows_best_earlier(moves, token);
            Grid::lemma_course(earlier, token);
            before.lemma_move_in_progress(cell);
            before.lemma_place_valid(cell, before.to_move());
            let grid = before.play(cell);
            assert(grid == Grid::after(moves));
            if before.to_move() == token {
                assert(cell == before.best_move());
                assert(before.eventual_result() == grid.eventual_result());
            } else if before.is_free(4) {
                assert(earlier.len() == 0);
                assert(before == Grid::empty());
                Grid::lemma_second_player_unbeaten(cell);
            } else {
                before.lemma_no_better_move(cell);
                before.lemma_eventual_result_is_final();
                grid.lemma_eventual_result_is_final();
            }
        }
    }

    /// The optimal player never loses: in a game in which one token made
    /// every move as the optimal player chooses, whatever the other token
    /// played, the result is no win for the other token.
    pub proof fn lemma_optimal_player_never_loses(moves: Seq<int>, token: Token)
        requires
            Grid::played(moves),
            Grid::follows_best(moves, token),
        ensures
            Grid::after(moves).result() != GameResult::Win(token.other()),
    {
        Grid::lemma_course(moves, token);
        Grid::after(moves).lemma_eventual_result_is_final();
    }

    /// In a game between two optimal players the eventual result is a draw
    /// at every turn.
    proof fn lemma_course_of_best_moves(moves: Seq<int>)
        requires
            Grid::played(moves),
            Grid::follows_best(moves, Token::X),
            Grid::follows_best(moves, Token::O),
        ensures
            Grid::after(moves).eventual_result() == GameResult::Draw,
        decreases moves.len(),
    {
        if moves.len() == 0 {
            Grid::lemma_optimal_players_draw();
        } else {
            Grid::lemma_follows_best_earlier(moves, Token::X);
            Grid::lemma_follows_best_earlier(moves, Token::O);
            Grid::lemma_course_of_best_moves(moves.drop_last());
        }
    }

    /// A game between two optimal players ends in a draw.
    pub proof fn lemma_optimal_game_is_drawn(moves: Seq<int>)
        requires
            Grid::played(moves),
            Grid::follows_best(moves, Token::X),
            Grid::follows_best(moves, Token::O),
            !(Grid::after(moves).result() is InProgress),
        ensures
            Grid::after(moves).result() == GameResult::Draw,
    {
        Grid::lemma_course_of_best_moves(moves);
        Grid::lemma_moves_read_back(moves);
        Grid::after(moves).lemma_eventual_result_is_final();
    }
}

/// OptimalPlayer as X never loses: a game in which the optimal player chose
/// X's moves is no win for O, whoever chose O's moves.
pub proof fn lemma_optimal_x_never_loses<O: Player>(moves: Seq<int>, x: OptimalPlayer, o: O)
    requires
        Grid::played(moves),
        Game::chosen_by(moves, x, o),
    ensures
        Grid::after(moves).result() != GameResult::Win(Token::O),
{
    assert forall|k: int|
        0 <= k < moves.len() && Grid::after(#[trigger] moves.take(k)).to_move()
            == Token::X implies moves[k] == Grid::after(moves.take(k)).best_move() by {
        assert(x.may_choose(Grid::after(moves.take(k)), moves[k]));
    }
    Grid::lemma_optimal_player_never_loses(moves, Token::X);
}

/// OptimalPlayer as O never loses: a game in which the optimal player chose
/// O's moves is no win for X, whoever chose X's moves.
pub proof fn lemma_optimal_o_never_loses<X: Player>(moves: Seq<int>, x: X, o: OptimalPlayer)
    requires
        Grid::played(moves),
        Game::chosen_by(moves, x, o),
    ensures
        Grid::after(moves).result() != GameResult::Win(Token::X),
{
    assert forall|k: int|
        0 <= k < moves.len() && Grid::after(#[trigger] moves.take(k)).to_move()
            == Token::O implies moves[k] == Grid::after(moves.take(k)).best_move() by {
        assert(o.may_choose(Grid::after(moves.take(k)), moves[k]));
    }
    Grid::lemma_optimal_player_never_loses(moves, Token::O);
}

/// OptimalPlayer against OptimalPlayer always draws: a finished game in
/// which the optimal player chose the moves of both sides is a draw.
pub proof fn lemma_optimal_against_optimal_draws(
    moves: Seq<int>,
    x: OptimalPlayer,
    o: OptimalPlayer,
)
    requires
        Grid::played(moves),
        Game::chosen_by(moves, x, o),
        !(Grid::after(moves).result() is InProgress),
    ensures
        Grid::after(moves).result() == GameResult::Draw,
{
    assert forall|k: int| 0 <= k < moves.len() implies moves[k] == Grid::after(
        #[trigger] moves.take(k),
    ).best_move() by {
        if Grid::after(moves.take(k)).to_move() == Token::X {
            assert(x.may_choose(Grid::after(moves.take(k)), moves[k]));
        } else {
            assert(o.may_choose(Grid::after(moves.take(k)), moves[k]));
        }
    }
    Grid::lemma_optimal_game_is_drawn(moves);
}

} // verus!
