//! The mathematical model of the board, in which the contracts of the
//! library are stated, and what follows from its rules.

use crate::board::{GameError, GameResult, Token};
use vstd::prelude::*;

verus! {

/// The mathematical model of a board: nine cells read row by row, and the
/// number of the turn that comes next (1 for the first move of the game).
pub struct Grid {
    pub cells: Seq<Option<Token>>,
    pub turn: int,
}

impl Grid {
    /// The board before the first move.
    pub open spec fn empty() -> Grid {
        Grid { cells: Seq::new(9, |cell: int| None), turn: 1 }
    }

    /// 1 if the cell holds the token, else 0.
    pub open spec fn mark(self, cell: int, token: Token) -> int {
        if self.cells[cell] == Some(token) {
            1
        } else {
            0
        }
    }

    /// How many of the cells below `limit` hold the token.
    pub open spec fn count_below(self, token: Token, limit: int) -> int
        decreases limit,
    {
        if limit <= 0 {
            0
        } else {
            self.count_below(token, limit - 1) + self.mark(limit - 1, token)
        }
    }

    /// Counting cell by cell gives the count.
    pub proof fn lemma_count_below(self, token: Token)
        ensures
            self.count_below(token, 9) == self.count(token),
    {
        reveal(Grid::count);
        reveal_with_fuel(Grid::count_below, 10);
    }

    /// How many cells hold the token.
    #[verifier::opaque]
    pub open spec fn count(self, token: Token) -> int {
        self.mark(0, token) + self.mark(1, token) + self.mark(2, token) + self.mark(3, token)
            + self.mark(4, token) + self.mark(5, token) + self.mark(6, token) + self.mark(
            7,
            token,
        ) + self.mark(8, token)
    }

    /// How many cells are occupied.
    pub open spec fn occupied(self) -> int {
        self.count(Token::X) + self.count(Token::O)
    }

    /// The cell is on the grid and nobody has played there.
    pub open spec fn is_free(self, cell: int) -> bool {
        0 <= cell < 9 && self.cells[cell] is None
    }

    /// The free cells with a number below `limit`, in ascending order.
    pub open spec fn free_below(self, limit: int) -> Seq<int>
        decreases limit,
    {
        if limit <= 0 {
            Seq::empty()
        } else if self.is_free(limit - 1) {
            self.free_below(limit - 1).push(limit - 1)
        } else {
            self.free_below(limit - 1)
        }
    }

    /// All free cells in row-major order: row 0 from left to right, then row 1,
    /// then row 2.
    pub open spec fn free_cells(self) -> Seq<int> {
        self.free_below(9)
    }

    /// The three cells all hold the token.
    pub open spec fn owns(self, token: Token, a: int, b: int, c: int) -> bool {
        self.cells[a] == Some(token) && self.cells[b] == Some(token) && self.cells[c] == Some(
            token,
        )
    }

    /// The token fills one of the eight lines: three rows, three columns, two diagonals.
    pub open spec fn has_line(self, token: Token) -> bool {
        ||| self.owns(token, 0, 1, 2)
        ||| self.owns(token, 3, 4, 5)
        ||| self.owns(token, 6, 7, 8)
        ||| self.owns(token, 0, 3, 6)
        ||| self.owns(token, 1, 4, 7)
        ||| self.owns(token, 2, 5, 8)
        ||| self.owns(token, 0, 4, 8)
        ||| self.owns(token, 6, 4, 2)
    }

    /// Whose move comes next: X on odd turns, O on even ones.
    pub open spec fn to_move(self) -> Token {
        if self.turn % 2 == 1 {
            Token::X
        } else {
            Token::O
        }
    }

    /// The result of the game as the cells and the turn number determine it.
    pub open spec fn result(self) -> GameResult {
        if self.has_line(Token::X) {
            GameResult::Win(Token::X)
        } else if self.has_line(Token::O) {
            GameResult::Win(Token::O)
        } else if self.turn <= 9 {
            GameResult::InProgress
        } else {
            GameResult::Draw
        }
    }

    /// The result of the game, unless both tokens own a line: no game
    /// reaches such a grid.
    pub open spec fn judge(self) -> Result<GameResult, GameError> {
        if self.has_line(Token::X) && self.has_line(Token::O) {
            Err(GameError::CorruptState)
        } else {
            Ok(self.result())
        }
    }

    /// What every board satisfies: the turn number is one more than the number
    /// of occupied cells, X has as many cells as O or one more, and at most one
    /// token owns a line.
    pub open spec fn valid(self) -> bool {
        &&& self.cells.len() == 9
        &&& 1 <= self.turn <= 10
        &&& self.occupied() == self.turn - 1
        &&& 0 <= self.count(Token::X) - self.count(Token::O) <= 1
        &&& !(self.has_line(Token::X) && self.has_line(Token::O))
    }

    /// The grid after the token is put on the cell.
    pub open spec fn place(self, cell: int, token: Token) -> Grid {
        Grid { cells: self.cells.update(cell, Some(token)), turn: self.turn + 1 }
    }

    /// The grid after the player whose turn it is moves to the cell.
    pub open spec fn play(self, cell: int) -> Grid {
        self.place(cell, self.to_move())
    }

    /// The grid that a sequence of moves leads to from the empty grid, X
    /// moving first and the players taking turns.
    pub open spec fn after(moves: Seq<int>) -> Grid
        decreases moves.len(),
    {
        if moves.len() == 0 {
            Grid::empty()
        } else {
            Grid::after(moves.drop_last()).play(moves.last())
        }
    }

    /// The sequence is the course of a game: every move goes to a free cell
    /// while the game is still in progress, so that the board accepts it.
    pub open spec fn played(moves: Seq<int>) -> bool
        decreases moves.len(),
    {
        moves.len() == 0 || {
            let before = Grid::after(moves.drop_last());
            Grid::played(moves.drop_last()) && before.result() is InProgress && before.is_free(
                moves.last(),
            )
        }
    }

    /// Why the move is refused, if it is: a move on a finished game, out of
    /// turn, or onto an occupied cell is an illegal move.
    pub open spec fn refusal(self, cell: int, token: Token) -> Option<GameError> {
        if !(self.result() is InProgress) || token != self.to_move() || !self.is_free(cell) {
            Some(GameError::IllegalMove)
        } else {
            None
        }
    }

    /// The cells that a board text of nine characters describes, row by row.
    /// A character that stands for no token leaves its cell empty.
    pub open spec fn cells_of_text(text: Seq<char>) -> Seq<Option<Token>> {
        Seq::new(
            9,
            |cell: int|
                match Token::of_char(text[cell]) {
                    Ok(held) => held,
                    Err(_) => None,
                },
        )
    }

    /// The grid with the cells that the text describes, at the turn that
    /// follows from the number of occupied cells.
    pub open spec fn read(text: Seq<char>) -> Grid {
        let cells = Grid::cells_of_text(text);
        Grid { cells, turn: (Grid { cells, turn: 0 }).occupied() + 1 }
    }

    /// What a board text stands for. The text is refused, in this order, if it
    /// does not have nine characters, if X has fewer cells than O or at least
    /// two more, if a character is none of `X`, `O` and `-`, or if both tokens
    /// own a line.
    pub open spec fn parse(text: Seq<char>) -> Result<Grid, GameError> {
        let grid = Grid::read(text);
        if text.len() != 9 {
            Err(GameError::InvalidLength)
        } else if !(0 <= grid.count(Token::X) - grid.count(Token::O) <= 1) {
            Err(GameError::InvalidTokenCount)
        } else if exists|cell: int| 0 <= cell < 9 && Token::of_char(#[trigger] text[cell]) is Err {
            Err(GameError::InvalidCharacter)
        } else if grid.has_line(Token::X) && grid.has_line(Token::O) {
            Err(GameError::CorruptState)
        } else {
            Ok(grid)
        }
    }

    /// The character that shows a cell: the token's letter, or a blank.
    pub open spec fn glyph(self, cell: int) -> char {
        match self.cells[cell] {
            Some(token) => token.letter(),
            None => ' ',
        }
    }

    /// The three characters that show a row.
    pub open spec fn row_glyphs(self, row: int) -> Seq<char> {
        seq![self.glyph(3 * row), self.glyph(3 * row + 1), self.glyph(3 * row + 2)]
    }

    /// The board as text: three rows of glyphs inside a border.
    pub open spec fn render(self) -> Seq<char> {
        "┌───┐\n│"@ + self.row_glyphs(0) + "│\n│"@ + self.row_glyphs(1) + "│\n│"@
            + self.row_glyphs(2) + "│\n└───┘"@
    }

    /// The counts and lines of a grid depend on its cells alone.
    pub proof fn lemma_cells_decide(self, other: Grid)
        requires
            self.cells == other.cells,
        ensures
            self.count(Token::X) == other.count(Token::X),
            self.count(Token::O) == other.count(Token::O),
            self.has_line(Token::X) == other.has_line(Token::X),
            self.has_line(Token::O) == other.has_line(Token::O),
    {
        reveal(Grid::count);
    }

    /// On a valid grid the turn number tells whose cells are in the majority.
    pub proof fn lemma_turn_parity(self)
        requires
            self.valid(),
        ensures
            self.to_move() == Token::X <==> self.count(Token::X) == self.count(Token::O),
            self.count(Token::X) == self.turn / 2,
            self.count(Token::O) == (self.turn - 1) / 2,
    {
        lemma_shares(self.count(Token::X), self.count(Token::O), self.turn);
    }

    /// Putting a token on a free cell adds one to its count and leaves the
    /// other token's count as it was.
    pub proof fn lemma_place_counts(self, cell: int, token: Token)
        requires
            self.cells.len() == 9,
            self.is_free(cell),
        ensures
            self.place(cell, token).count(token) == self.count(token) + 1,
            self.place(cell, token).count(token.other()) == self.count(token.other()),
            self.occupied() <= 8,
    {
        let after = self.place(cell, token);
        let other = token.other();
        assert forall|i: int| 0 <= i < 9 implies {
            &&& #[trigger] after.mark(i, token) == self.mark(i, token) + if i == cell {
                1int
            } else {
                0int
            }
            &&& after.mark(i, other) == self.mark(i, other)
            &&& self.mark(i, token) + self.mark(i, other) <= if i == cell {
                0int
            } else {
                1int
            }
        } by {}
        assert(after.mark(0, token) + after.mark(1, token) + after.mark(2, token) + after.mark(
            3,
            token,
        ) + after.mark(4, token) + after.mark(5, token) + after.mark(6, token) + after.mark(
            7,
            token,
        ) + after.mark(8, token) == self.mark(0, token) + self.mark(1, token) + self.mark(
            2,
            token,
        ) + self.mark(3, token) + self.mark(4, token) + self.mark(5, token) + self.mark(6, token)
            + self.mark(7, token) + self.mark(8, token) + 1);
        reveal(Grid::count);
    }

    /// `free_below` lists exactly the free cells below the limit, each once, in
    /// ascending order.
    pub proof fn lemma_free_below(self, limit: int)
        requires
            0 <= limit <= 9,
        ensures
            forall|i: int|
                0 <= i < self.free_below(limit).len() ==> self.is_free(
                    #[trigger] self.free_below(limit)[i],
                ) && self.free_below(limit)[i] < limit,
            forall|i: int, j: int|
                0 <= i < j < self.free_below(limit).len() ==> self.free_below(limit)[i]
                    < self.free_below(limit)[j],
            forall|cell: int|
                self.is_free(cell) && cell < limit ==> self.free_below(limit).contains(cell),
            self.free_below(limit).len() <= limit,
        decreases limit,
    {
        if limit > 0 {
            self.lemma_free_below(limit - 1);
            let shorter = self.free_below(limit - 1);
            if self.is_free(limit - 1) {
                let longer = shorter.push(limit - 1);
                assert(longer[shorter.len() as int] == limit - 1);
                assert forall|cell: int| self.is_free(cell) && cell < limit implies longer.contains(
                    cell,
                ) by {
                    if cell < limit - 1 {
                        let i = choose|i: int| 0 <= i < shorter.len() && shorter[i] == cell;
                        assert(longer[i] == cell);
                    }
                }
            }
        }
    }

    /// Cell `cell` is either free, and then listed, or counted for its token.
    proof fn lemma_free_step(self, cell: int)
        requires
            0 <= cell < 9,
        ensures
            self.free_below(cell + 1).len() + self.mark(cell, Token::X) + self.mark(
                cell,
                Token::O,
            ) == self.free_below(cell).len() + 1,
    {
        match self.cells[cell] {
            Some(Token::X) => {},
            Some(Token::O) => {},
            None => {},
        }
    }

    /// The free cells and the occupied cells together are the nine cells of the grid.
    pub proof fn lemma_free_count(self)
        ensures
            self.free_cells().len() + self.occupied() == 9,
    {
        reveal(Grid::count);
        assert(self.free_below(0).len() == 0);
        self.lemma_free_step(0);
        self.lemma_free_step(1);
        self.lemma_free_step(2);
        self.lemma_free_step(3);
        self.lemma_free_step(4);
        self.lemma_free_step(5);
        self.lemma_free_step(6);
        self.lemma_free_step(7);
        self.lemma_free_step(8);
    }

    /// A board built by the moves of a game reads back cell by cell:
    /// it is valid, its turn number is one more than the number of moves, a
    /// cell is free exactly if no move went there, and the cell of the move
    /// at place `k` holds X if `k` is even and O if it is odd.
    pub proof fn lemma_moves_read_back(moves: Seq<int>)
        requires
            Grid::played(moves),
        ensures
            Grid::after(moves).valid(),
            Grid::after(moves).turn == moves.len() + 1,
            forall|cell: int|
                0 <= cell < 9 ==> (Grid::after(moves).is_free(cell) <==> !moves.contains(cell)),
            forall|k: int|
                0 <= k < moves.len() ==> 0 <= #[trigger] moves[k] < 9 && Grid::after(
                    moves,
                ).cells[moves[k]] == Some(
                    if k % 2 == 0 {
                        Token::X
                    } else {
                        Token::O
                    },
                ),
        decreases moves.len(),
    {
        if moves.len() == 0 {
            Grid::lemma_empty_valid();
        } else {
            let earlier = moves.drop_last();
            let before = Grid::after(earlier);
            let last = moves.last();
            Grid::lemma_moves_read_back(earlier);
            before.lemma_place_valid(last, before.to_move());
            let grid = Grid::after(moves);
            assert(grid == before.play(last));
            assert forall|cell: int| 0 <= cell < 9 implies (grid.is_free(cell) <==> !moves.contains(
                cell,
            )) by {
                if cell == last {
                    assert(moves[moves.len() - 1] == cell);
                } else if moves.contains(cell) {
                    let k = choose|k: int| 0 <= k < moves.len() && moves[k] == cell;
                    assert(earlier[k] == cell);
                } else if earlier.contains(cell) {
                    let k = choose|k: int| 0 <= k < earlier.len() && earlier[k] == cell;
                    assert(moves[k] == cell);
                }
            }
            assert forall|k: int| 0 <= k < moves.len() implies 0 <= #[trigger] moves[k] < 9
                && grid.cells[moves[k]] == Some(
                if k % 2 == 0 {
                    Token::X
                } else {
                    Token::O
                },
            ) by {
                if k < moves.len() - 1 {
                    assert(earlier[k] == moves[k]);
                    assert(earlier.contains(moves[k]));
                }
            }
        }
    }

    /// The empty grid is valid, and it is X's turn on it.
    pub proof fn lemma_empty_valid()
        ensures
            Grid::empty().valid(),
            Grid::empty().count(Token::X) == 0,
            Grid::empty().count(Token::O) == 0,
            Grid::empty().result() is InProgress,
            Grid::empty().to_move() == Token::X,
    {
        reveal(Grid::count);
    }

    /// A move that is not refused leads from a valid grid to a valid grid.
    pub proof fn lemma_place_valid(self, cell: int, token: Token)
        requires
            self.valid(),
            self.refusal(cell, token) is None,
        ensures
            self.place(cell, token).valid(),
    {
        self.lemma_move_in_progress(cell);
        self.lemma_turn_parity();
        self.lemma_place_counts(cell, token);
        lemma_shares(self.count(Token::X), self.count(Token::O), self.turn);
    }

    /// While no line is complete, a move in turn onto a free cell is never refused.
    pub proof fn lemma_move_in_progress(self, cell: int)
        requires
            self.valid(),
            self.result() is InProgress,
            self.is_free(cell),
        ensures
            self.refusal(cell, self.to_move()) is None,
            !self.play(cell).has_line(self.to_move().other()),
    {
    }
}

/// How a turn number splits the occupied cells between the two tokens.
proof fn lemma_shares(x: int, o: int, turn: int)
    requires
        x + o == turn - 1,
        0 <= x - o <= 1,
    ensures
        turn % 2 == 1 <==> x == o,
        x == turn / 2,
        o == (turn - 1) / 2,
{
}

} // verus!
