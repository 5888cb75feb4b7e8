//! The game board: tokens, positions, and the rules for placing moves and
//! deciding the result of a game.

use crate::grid::Grid;
use vstd::prelude::*;
use vstd::string::{StrSliceExecFns, StringExecFns};

verus! {

/// Represents the player of the game (X or O). X always moves first.
#[derive(Copy, Clone, Debug, PartialEq, Eq, Structural)]
pub enum Token {
    X,
    O,
}

/// Why an operation on the board was refused.
#[derive(Copy, Clone, Debug, PartialEq, Eq, Structural)]
pub enum GameError {
    /// A row or column lies outside the 3x3 grid.
    InvalidPosition,
    /// A move was made on a finished game, out of turn, or onto an occupied cell.
    IllegalMove,
    /// Both tokens own a complete line at once.
    CorruptState,
    /// A board text does not have exactly nine characters.
    InvalidLength,
    /// A board text holds numbers of X and O that no game can reach.
    InvalidTokenCount,
    /// A board text holds a character other than `X`, `O` and `-`.
    InvalidCharacter,
}

/// Indicates the result of a game.
#[derive(Copy, Clone, Debug, PartialEq, Eq, Structural)]
pub enum GameResult {
    /// The given Token has won the game.
    Win(Token),
    /// The game ended in a draw.
    Draw,
    /// The game is still in progress.
    InProgress,
}

impl Token {
    /// The opponent of this token.
    pub open spec fn other(self) -> Token {
        match self {
            Token::X => Token::O,
            Token::O => Token::X,
        }
    }

    /// What a character of a board text stands for: `-` is an empty cell.
    pub open spec fn of_char(value: char) -> Result<Option<Token>, GameError> {
        if value == 'X' {
            Ok(Some(Token::X))
        } else if value == 'O' {
            Ok(Some(Token::O))
        } else if value == '-' {
            Ok(None)
        } else {
            Err(GameError::InvalidCharacter)
        }
    }

    /// The letter that stands for this token.
    pub open spec fn letter(self) -> char {
        match self {
            Token::X => 'X',
            Token::O => 'O',
        }
    }

    /// The name of this token as text: `X` or `O`.
    pub fn to_string(&self) -> (text: String)
        ensures
            text@ == seq![self.letter()],
    {
        proof {
            reveal_strlit("X");
            reveal_strlit("O");
        }
        let text = match self {
            Token::X => String::from_str("X"),
            Token::O => String::from_str("O"),
        };
        assert(text@ =~= seq![self.letter()]);
        text
    }

    /// Reads one character of a board text.
    pub fn from_char(value: char) -> (cell: Result<Option<Token>, GameError>)
        ensures
            cell == Token::of_char(value),
    {
        if value == 'X' {
            Ok(Some(Token::X))
        } else if value == 'O' {
            Ok(Some(Token::O))
        } else if value == '-' {
            Ok(None)
        } else {
            Err(GameError::InvalidCharacter)
        }
    }
}

/// A position in a tic-tac-toe game board.
#[derive(Copy, Clone, Debug, PartialEq, Eq, Structural)]
pub struct Position {
    /// row number (0 = top, 2 = bottom)
    row: u8,
    /// column number (0 = left, 2 = right)
    column: u8,
}

impl Position {
    /// The cell numbers of a list of positions.
    pub open spec fn cells(positions: Seq<Position>) -> Seq<int> {
        Seq::new(positions.len(), |i: int| positions[i].cell())
    }

    /// The row of this position, as a mathematical integer.
    pub closed spec fn spec_row(self) -> int {
        self.row as int
    }

    /// The column of this position, as a mathematical integer.
    pub closed spec fn spec_column(self) -> int {
        self.column as int
    }

    /// The number of this position's cell when the grid is read row by row,
    /// from 0 (top left) to 8 (bottom right).
    pub open spec fn cell(self) -> int {
        3 * self.spec_row() + self.spec_column()
    }

    /// Both coordinates lie on the grid. Every position that exists at run time
    /// satisfies this.
    #[verifier::type_invariant]
    pub open spec fn in_grid(self) -> bool {
        0 <= self.spec_row() <= 2 && 0 <= self.spec_column() <= 2
    }

    /// Creates a position given the row and column; refuses coordinates
    /// outside the grid.
    pub fn new(row: u8, column: u8) -> (position: Result<Position, GameError>)
        ensures
            position is Ok <==> row <= 2 && column <= 2,
            position matches Ok(p) ==> p.spec_row() == row && p.spec_column() == column
                && p.in_grid(),
            position matches Err(e) ==> e == GameError::InvalidPosition,
    {
        if row > 2 || column > 2 {
            Err(GameError::InvalidPosition)
        } else {
            Ok(Position { row, column })
        }
    }

    /// The position in the middle of the grid.
    pub fn center() -> (position: Position)
        ensures
            position.spec_row() == 1,
            position.spec_column() == 1,
            position.cell() == 4,
    {
        Position { row: 1, column: 1 }
    }

    /// The row of this position (0 = top, 2 = bottom).
    pub fn row(&self) -> (row: u8)
        ensures
            row == self.spec_row(),
            row <= 2,
    {
        proof {
            use_type_invariant(self);
        }
        self.row
    }

    /// The column of this position (0 = left, 2 = right).
    pub fn column(&self) -> (column: u8)
        ensures
            column == self.spec_column(),
            column <= 2,
    {
        proof {
            use_type_invariant(self);
        }
        self.column
    }
}

/// Represents a tic-tac-toe game board.
#[derive(Copy, Clone, Debug, PartialEq, Eq)]
pub struct Board {
    cells: [Option<Token>; 9],
    turn_number: u8,
}

impl View for Board {
    type V = Grid;

    closed spec fn view(&self) -> Grid {
        Grid { cells: self.cells@, turn: self.turn_number as int }
    }
}

impl Board {
    /// Every board that exists at run time is a valid grid.
    #[verifier::type_invariant]
    pub open spec fn well_formed(&self) -> bool {
        self@.valid()
    }

    /// Creates an empty tic-tac-toe game board.
    pub fn new() -> (board: Board)
        ensures
            board@ == Grid::empty(),
            board@.valid(),
    {
        let cells: [Option<Token>; 9] = [None;9];
        proof {
            assert(cells@ =~= Grid::empty().cells);
            Grid::lemma_empty_valid();
        }
        Board { cells, turn_number: 1 }
    }

    /// The token on the given position, if any.
    pub fn token_at(&self, position: Position) -> (token: Option<Token>)
        ensures
            token == self@.cells[position.cell()],
    {
        proof {
            use_type_invariant(position);
        }
        self.cells[Board::index_of(position)]
    }

    /// True if nobody has played on the given position.
    pub fn is_position_unused(&self, position: Position) -> (unused: bool)
        ensures
            unused == self@.is_free(position.cell()),
    {
        proof {
            use_type_invariant(position);
        }
        self.token_at(position).is_none()
    }

    /// Reads a board from nine characters, row by row: `X`, `O`, or `-` for an
    /// empty cell. The turn number follows from the number of occupied cells.
    pub fn from_string(contents: &str) -> (board: Result<Board, GameError>)
        ensures
            match board {
                Ok(read) => Grid::parse(contents@) == Ok::<Grid, GameError>(read@),
                Err(error) => Grid::parse(contents@) == Err::<Grid, GameError>(error),
            },
    {
        if contents.unicode_len() != 9 {
            return Err(GameError::InvalidLength);
        }
        let mut cells: [Option<Token>; 9] = [None;9];
        let mut legible = true;
        let mut index: usize = 0;
        while index < 9
            invariant
                index <= 9,
                contents@.len() == 9,
                forall|i: int|
                    0 <= i < index ==> cells@[i] == #[trigger] Grid::cells_of_text(contents@)[i],
                legible <==> forall|i: int|
                    0 <= i < index ==> Token::of_char(#[trigger] contents@[i]) is Ok,
            decreases 9 - index,
        {
            match Token::from_char(contents.get_char(index)) {
                Ok(held) => {
                    cells[index] = held;
                },
                Err(_) => {
                    cells[index] = None;
                    legible = false;
                },
            }
            index += 1;
        }
        let x_count = Board::count(&cells, Token::X);
        let o_count = Board::count(&cells, Token::O);
        proof {
            (Grid { cells: cells@, turn: 0 }).lemma_free_count();
        }
        let turn_number = x_count + o_count + 1;
        proof {
            assert(cells@ =~= Grid::cells_of_text(contents@));
            Grid::read(contents@).lemma_cells_decide(Grid { cells: cells@, turn: 0 });
            Grid::read(contents@).lemma_cells_decide(
                Grid { cells: cells@, turn: turn_number as int },
            );
            Grid::read(contents@).lemma_free_count();
        }
        if x_count != o_count && x_count != o_count + 1 {
            return Err(GameError::InvalidTokenCount);
        }
        if !legible {
            return Err(GameError::InvalidCharacter);
        }
        match Board::judge(&cells, turn_number) {
            Err(error) => Err(error),
            Ok(_) => Ok(Board { cells, turn_number }),
        }
    }

    /// The board as text: the three rows between a top and a bottom border,
    /// each cell shown by its token's letter or a blank.
    pub fn to_string(&self) -> (text: String)
        ensures
            text@ == self@.render(),
    {
        let mut text = String::from_str("┌───┐\n│");
        text.append(self.row_text(0).as_str());
        text.append("│\n│");
        text.append(self.row_text(1).as_str());
        text.append("│\n│");
        text.append(self.row_text(2).as_str());
        text.append("│\n└───┘");
        text
    }

    /// The three characters that show a row.
    fn row_text(&self, row: usize) -> (text: String)
        requires
            row < 3,
        ensures
            text@ == self@.row_glyphs(row as int),
    {
        let mut text = String::from_str(Board::glyph(self.cells[3 * row]));
        text.append(Board::glyph(self.cells[3 * row + 1]));
        text.append(Board::glyph(self.cells[3 * row + 2]));
        assert(text@ =~= self@.row_glyphs(row as int));
        text
    }

    /// The text that shows a cell.
    fn glyph(cell: Option<Token>) -> (text: &'static str)
        ensures
            text@ == seq![
                match cell {
                    Some(token) => token.letter(),
                    None => ' ',
                },
            ],
    {
        proof {
            reveal_strlit("X");
            reveal_strlit("O");
            reveal_strlit(" ");
        }
        let text = match cell {
            Some(Token::X) => "X",
            Some(Token::O) => "O",
            None => " ",
        };
        assert(text@ =~= seq![
            match cell {
                Some(token) => token.letter(),
                None => ' ',
            },
        ]);
        text
    }

    /// How many cells hold the token.
    fn count(cells: &[Option<Token>; 9], token: Token) -> (count: u8)
        ensures
            count == (Grid { cells: cells@, turn: 0 }).count(token),
            count <= 9,
    {
        reveal(Grid::count);
        let mut count: u8 = 0;
        let mut index: usize = 0;
        while index < 9
            invariant
                index <= 9,
                count == (Grid { cells: cells@, turn: 0 }).count_below(token, index as int),
                count <= index,
            decreases 9 - index,
        {
            if Board::holds(cells[index], token) {
                count += 1;
            }
            index += 1;
        }
        proof {
            (Grid { cells: cells@, turn: 0 }).lemma_count_below(token);
        }
        count
    }

    /// Returns all of the empty positions in a vector, in row-major order:
    /// row 0 from left to right, then row 1, then row 2.
    pub fn empty_positions(&self) -> (positions: Vec<Position>)
        ensures
            Position::cells(positions@) == self@.free_cells(),
            positions@.len() + self@.occupied() == 9,
            forall|i: int| 0 <= i < positions@.len() ==> (#[trigger] positions@[i]).in_grid(),
    {
        proof {
            use_type_invariant(self);
            self@.lemma_free_count();
        }
        let mut positions: Vec<Position> = Vec::new();
        let mut row: u8 = 0;
        while row < 3
            invariant
                row <= 3,
                self@.cells.len() == 9,
                Position::cells(positions@) == self@.free_below(3 * row),
                forall|i: int| 0 <= i < positions@.len() ==> (#[trigger] positions@[i]).in_grid(),
            decreases 3 - row,
        {
            let mut column: u8 = 0;
            while column < 3
                invariant
                    row < 3,
                    column <= 3,
                    self@.cells.len() == 9,
                    Position::cells(positions@) == self@.free_below(3 * row + column),
                    forall|i: int|
                        0 <= i < positions@.len() ==> (#[trigger] positions@[i]).in_grid(),
                decreases 3 - column,
            {
                let position = Position { row, column };
                if self.is_position_unused(position) {
                    positions.push(position);
                }
                assert(Position::cells(positions@) =~= self@.free_below(3 * row + column + 1));
                column += 1;
            }
            row += 1;
        }
        positions
    }

    /// The token of the player who moves next.
    pub fn whose_turn(&self) -> (token: Token)
        ensures
            token == self@.to_move(),
    {
        if self.turn_number % 2 == 1 {
            Token::X
        } else {
            Token::O
        }
    }

    /// The number of the next turn: 1 on an empty board, 10 on a full one.
    pub fn turn_number(&self) -> (turn: u8)
        ensures
            turn == self@.turn,
            1 <= turn <= 10,
    {
        proof {
            use_type_invariant(self);
        }
        self.turn_number
    }

    /// Marks the given position as occupied by the given player.
    ///
    /// The move is refused as illegal, and the board left as it was, if the
    /// game is over, if the player is playing out of turn (X goes first, then
    /// O, and so on), or if the position is already occupied.
    pub fn add_move(&mut self, player: Token, at: Position) -> (outcome: Result<(), GameError>)
        ensures
            outcome == match old(self)@.refusal(at.cell(), player) {
                Some(error) => Err::<(), GameError>(error),
                None => Ok(()),
            },
            outcome is Ok ==> final(self)@ == old(self)@.place(at.cell(), player),
            outcome is Err ==> *final(self) == *old(self),
            outcome is Ok <==> old(self)@.result() is InProgress && player == old(self)@.to_move()
                && old(self)@.is_free(at.cell()),
            outcome is Err ==> outcome == Err::<(), GameError>(GameError::IllegalMove),
            final(self)@.valid(),
    {
        proof {
            use_type_invariant(&*self);
            use_type_invariant(at);
        }
        if self.get_game_result() != GameResult::InProgress {
            return Err(GameError::IllegalMove);
        }
        if player != self.whose_turn() {
            return Err(GameError::IllegalMove);
        }
        let index = Board::index_of(at);
        if self.cells[index].is_some() {
            return Err(GameError::IllegalMove);
        }
        let mut cells = self.cells;
        cells[index] = Some(player);
        let turn_number = self.turn_number + 1;
        proof {
            self@.lemma_place_valid(at.cell(), player);
        }
        *self = Board { cells, turn_number };
        Ok(())
    }

    /// Gets the result of the current game.
    ///
    /// Exactly one of the three holds: a token has won, and then it is the
    /// only one that owns a line; the game is drawn, with all cells occupied
    /// and no line; or the game is in progress. No board has two winners.
    pub fn get_game_result(&self) -> (result: GameResult)
        ensures
            result == self@.result(),
            self@.judge() == Ok::<GameResult, GameError>(result),
            forall|token: Token| result == GameResult::Win(token) <==> self@.has_line(token),
            result is Draw <==> !self@.has_line(Token::X) && !self@.has_line(Token::O)
                && self@.turn == 10,
            result is InProgress <==> !self@.has_line(Token::X) && !self@.has_line(Token::O)
                && self@.turn <= 9,
    {
        proof {
            use_type_invariant(self);
        }
        Board::result_of(&self.cells, self.turn_number)
    }

    /// The result that the cells and the turn number determine; where both
    /// tokens own a line, X is named.
    fn result_of(cells: &[Option<Token>; 9], turn_number: u8) -> (result: GameResult)
        ensures
            result == (Grid { cells: cells@, turn: turn_number as int }).result(),
    {
        if Board::has_line(cells, Token::X) {
            GameResult::Win(Token::X)
        } else if Board::has_line(cells, Token::O) {
            GameResult::Win(Token::O)
        } else if turn_number <= 9 {
            GameResult::InProgress
        } else {
            GameResult::Draw
        }
    }

    /// Decides the result of a game from its cells and turn number, looking at
    /// all eight lines, and reports cells on which both tokens own a line.
    fn judge(cells: &[Option<Token>; 9], turn_number: u8) -> (verdict: Result<
        GameResult,
        GameError,
    >)
        ensures
            verdict == (Grid { cells: cells@, turn: turn_number as int }).judge(),
    {
        if Board::has_line(cells, Token::X) && Board::has_line(cells, Token::O) {
            Err(GameError::CorruptState)
        } else {
            Ok(Board::result_of(cells, turn_number))
        }
    }

    /// True if the token fills a row, a column or a diagonal.
    fn has_line(cells: &[Option<Token>; 9], token: Token) -> (found: bool)
        ensures
            found == (Grid { cells: cells@, turn: 0 }).has_line(token),
    {
        // the three rows
        Board::owns(cells, token, 0, 1, 2) || Board::owns(cells, token, 3, 4, 5) || Board::owns(
            cells,
            token,
            6,
            7,
            8,
        )
        // the three columns
         || Board::owns(cells, token, 0, 3, 6) || Board::owns(cells, token, 1, 4, 7)
            || Board::owns(cells, token, 2, 5, 8)
        // diagonal in direction '\', then diagonal in direction '/'
         || Board::owns(cells, token, 0, 4, 8) || Board::owns(cells, token, 6, 4, 2)
    }

    /// True if the three cells all hold the token.
    fn owns(cells: &[Option<Token>; 9], token: Token, a: usize, b: usize, c: usize) -> (all: bool)
        requires
            a < 9,
            b < 9,
            c < 9,
        ensures
            all == (Grid { cells: cells@, turn: 0 }).owns(token, a as int, b as int, c as int),
    {
        Board::holds(cells[a], token) && Board::holds(cells[b], token) && Board::holds(
            cells[c],
            token,
        )
    }

    /// True if the cell holds the token.
    fn holds(cell: Option<Token>, token: Token) -> (same: bool)
        ensures
            same == (cell == Some(token)),
    {
        match cell {
            Some(held) => held == token,
            None => false,
        }
    }

    fn index_of(position: Position) -> (index: usize)
        ensures
            index == position.cell(),
            index < 9,
    {
        let row = position.row();
        let column = position.column();
        (row * 3 + column) as usize
    }
}

} // verus!
