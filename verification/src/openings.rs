//! The plain defence holds out after every opening.
//!
//! X may open on any of the nine cells. If X opens in the center, both sides
//! are considered: X defending against every reply of O, and O defending
//! from its first move on. If X opens elsewhere, O takes the center and
//! defends from there. In each case the rest of the game is short enough to
//! be unfolded move by move.

use crate::board::Token;
use crate::grid::Grid;
use vstd::prelude::*;

verus! {

/// X has opened in the center: whatever O replies, X holds out.
pub proof fn lemma_center_holds_for_x()
    ensures
        Grid::empty().place(4, Token::X).defended(Token::X, Token::O, 8, 3),
{
    reveal_with_fuel(Grid::defended, 7);
}

/// X has opened in the center: O holds out, starting in the top left corner.
pub proof fn lemma_center_holds_for_o()
    ensures
        Grid::empty().place(4, Token::X).defended(Token::O, Token::O, 0, 2),
{
    reveal_with_fuel(Grid::defended, 8);
}

/// X has opened in the top left corner and O has taken the center: O holds out.
pub proof fn lemma_top_left_holds_for_o()
    ensures
        Grid::empty().place(0, Token::X).place(4, Token::O).defended(Token::O, Token::X, 8, 3),
{
    reveal_with_fuel(Grid::defended, 7);
}

/// X has opened on the top edge and O has taken the center: O holds out.
pub proof fn lemma_top_holds_for_o()
    ensures
        Grid::empty().place(1, Token::X).place(4, Token::O).defended(Token::O, Token::X, 2, 3),
{
    reveal_with_fuel(Grid::defended, 7);
}

/// X has opened in the top right corner and O has taken the center: O holds out.
pub proof fn lemma_top_right_holds_for_o()
    ensures
        Grid::empty().place(2, Token::X).place(4, Token::O).defended(Token::O, Token::X, 2, 3),
{
    reveal_with_fuel(Grid::defended, 7);
}

/// X has opened on the left edge and O has taken the center: O holds out.
pub proof fn lemma_left_holds_for_o()
    ensures
        Grid::empty().place(3, Token::X).place(4, Token::O).defended(Token::O, Token::X, 0, 2),
{
    reveal_with_fuel(Grid::defended, 7);
}

/// X has opened on the right edge and O has taken the center: O holds out.
pub proof fn lemma_right_holds_for_o()
    ensures
        Grid::empty().place(5, Token::X).place(4, Token::O).defended(Token::O, Token::X, 8, 3),
{
    reveal_with_fuel(Grid::defended, 7);
}

/// X has opened in the bottom left corner and O has taken the center: O holds out.
pub proof fn lemma_bottom_left_holds_for_o()
    ensures
        Grid::empty().place(6, Token::X).place(4, Token::O).defended(Token::O, Token::X, 2, 3),
{
    reveal_with_fuel(Grid::defended, 7);
}

/// X has opened on the bottom edge and O has taken the center: O holds out.
pub proof fn lemma_bottom_holds_for_o()
    ensures
        Grid::empty().place(7, Token::X).place(4, Token::O).defended(Token::O, Token::X, 8, 3),
{
    reveal_with_fuel(Grid::defended, 7);
}

/// X has opened in the bottom right corner and O has taken the center: O holds out.
pub proof fn lemma_bottom_right_holds_for_o()
    ensures
        Grid::empty().place(8, Token::X).place(4, Token::O).defended(Token::O, Token::X, 8, 3),
{
    reveal_with_fuel(Grid::defended, 7);
}

} // verus!
