//! What a person at the console means by a line of input: which token to
//! play, and which position to move to.

use crate::board::{Board, Position, Token};
use crate::grid::Grid;
use vstd::prelude::*;
use vstd::string::StrSliceExecFns;

verus! {

/// Why a line of input is not a move.
#[derive(Copy, Clone, Debug, PartialEq, Eq, Structural)]
pub enum Rejection {
    /// The line does not name a position.
    NotAPosition,
    /// The line names a position that is already occupied.
    Occupied,
}

/// The text that `str::trim` returns for a text: the same text without
/// leading and trailing whitespace.
pub uninterp spec fn trimmed(text: Seq<char>) -> Seq<char>;

/// The token that an answer names: `X` or `O`, in either case.
pub open spec fn token_named(answer: Seq<char>) -> Option<Token> {
    if answer.len() != 1 {
        None
    } else if answer[0] == 'X' || answer[0] == 'x' {
        Some(Token::X)
    } else if answer[0] == 'O' || answer[0] == 'o' {
        Some(Token::O)
    } else {
        None
    }
}

/// The cell that an answer names: the digits 1 to 9 number the cells row by
/// row, 1 at the top left and 9 at the bottom right.
pub open spec fn cell_named(answer: Seq<char>) -> Option<int> {
    if answer.len() == 1 && '1' <= answer[0] <= '9' {
        Some(answer[0] as int - '1' as int)
    } else {
        None
    }
}

/// The move that an answer asks for on a grid, or why it is none.
pub open spec fn move_named(grid: Grid, answer: Seq<char>) -> Result<
    int,
    Rejection,
> {
    match cell_named(answer) {
        None => Err(Rejection::NotAPosition),
        Some(cell) => if grid.is_free(cell) {
            Ok(cell)
        } else {
            Err(Rejection::Occupied)
        },
    }
}

/// Removes leading and trailing whitespace.
///
/// Calls `str::trim`. Trusted: the text returned is the one that `trimmed`
/// names, a function of the characters of `text` alone.
#[verifier::external_body]
fn trim(text: &str) -> (inner: &str)
    ensures
        inner@ == trimmed(text@),
{
    text.trim()
}

/// The token that an answer without surrounding whitespace names.
pub fn token_from_answer(answer: &str) -> (token: Option<Token>)
    ensures
        token == token_named(answer@),
{
    if answer.unicode_len() != 1 {
        return None;
    }
    let letter = answer.get_char(0);
    if letter == 'X' || letter == 'x' {
        Some(Token::X)
    } else if letter == 'O' || letter == 'o' {
        Some(Token::O)
    } else {
        None
    }
}

/// The position that an answer without surrounding whitespace names.
pub fn position_from_answer(answer: &str) -> (position: Option<Position>)
    ensures
        match position {
            Some(named) => cell_named(answer@) == Some(named.cell()),
            None => cell_named(answer@) is None,
        },
{
    if answer.unicode_len() != 1 {
        return None;
    }
    let (row, column): (u8, u8) = match answer.get_char(0) {
        '1' => (0, 0),
        '2' => (0, 1),
        '3' => (0, 2),
        '4' => (1, 0),
        '5' => (1, 1),
        '6' => (1, 2),
        '7' => (2, 0),
        '8' => (2, 1),
        '9' => (2, 2),
        _ => { return None; },
    };
    match Position::new(row, column) {
        Ok(position) => Some(position),
        Err(_) => None,
    }
}

/// The move that an answer without surrounding whitespace asks for.
pub fn move_from_answer(board: &Board, answer: &str) -> (choice: Result<Position, Rejection>)
    ensures
        match choice {
            Ok(position) => move_named(board@, answer@) == Ok::<int, Rejection>(position.cell()),
            Err(rejection) => move_named(board@, answer@) == Err::<int, Rejection>(rejection),
        },
{
    match position_from_answer(answer) {
        None => Err(Rejection::NotAPosition),
        Some(position) => if board.is_position_unused(position) {
            Ok(position)
        } else {
            Err(Rejection::Occupied)
        },
    }
}

/// Reads the token that a line of input names, whitespace around it ignored.
pub fn read_token(line: &str) -> (token: Option<Token>)
    ensures
        token == token_named(trimmed(line@)),
{
    token_from_answer(trim(line))
}

/// Reads the move that a line of input asks for, whitespace around it ignored.
pub fn read_move(board: &Board, line: &str) -> (choice: Result<Position, Rejection>)
    ensures
        match choice {
            Ok(position) => move_named(board@, trimmed(line@)) == Ok::<int, Rejection>(
                position.cell(),
            ),
            Err(rejection) => move_named(board@, trimmed(line@)) == Err::<int, Rejection>(
                rejection,
            ),
        },
{
    move_from_answer(board, trim(line))
}

} // verus!
