//! Players that do not search: one that moves at random, and one that
//! takes the first empty position.

use crate::board::{Board, Position};
use crate::grid::Grid;
use crate::player::Player;
use rand::rngs::ThreadRng;
use rand::Rng;
use vstd::prelude::*;

verus! {

/// A player that moves to an empty position chosen at random.
pub struct RandomPlayer {}

impl Player for RandomPlayer {
    fn take_turn(&mut self, board: &Board) -> (position: Position) {
        let count = board.empty_positions().len();
        proof {
            use_type_invariant(board);
        }
        let mut rng = rand::thread_rng();
        let position_to_choose = draw_below(&mut rng, count);
        nth_empty_position(board, position_to_choose)
    }
}

/// The empty position with the given number, the empty positions counted
/// from 0 in row-major order. This is the random player's move once the
/// number is drawn.
pub fn nth_empty_position(board: &Board, drawn: usize) -> (position: Position)
    requires
        drawn < board@.free_cells().len(),
    ensures
        position.cell() == board@.free_cells()[drawn as int],
        board@.is_free(position.cell()),
{
    let empty_positions = board.empty_positions();
    proof {
        board@.lemma_free_below(9);
        assert(board@.free_cells()[drawn as int] == Position::cells(
            empty_positions@,
        )[drawn as int]);
    }
    empty_positions[drawn]
}

/// A player that always moves to the first empty position in row-major order.
pub struct SimpletonPlayer {}

impl Player for SimpletonPlayer {
    /// The simpleton allows itself one cell: the first free one.
    open spec fn may_choose(&self, grid: Grid, cell: int) -> bool {
        cell == grid.free_cells()[0]
    }

    fn take_turn(&mut self, board: &Board) -> (position: Position)
        ensures
            position.cell() == board@.free_cells()[0],
    {
        let empty_positions = board.empty_positions();
        proof {
            use_type_invariant(board);
            board@.lemma_free_below(9);
            assert(board@.free_cells()[0] == Position::cells(empty_positions@)[0]);
        }
        empty_positions[0]
    }
}

/// The generator of random numbers that `rand` keeps for each thread.
#[verifier::external_type_specification]
#[verifier::external_body]
pub struct ExThreadRng(ThreadRng);

/// `rand::thread_rng` hands out the generator of the current thread. Nothing
/// is claimed of it.
pub assume_specification[ rand::thread_rng ]() -> (generator: ThreadRng);

/// Draws a number below `count` from the generator.
///
/// Calls `rand::Rng::gen_range` with the bounds 0 and `count`, which panics
/// unless 0 is below `count`. Trusted: the number drawn is at least 0 and
/// less than `count`. Nothing is claimed about which number it is.
#[verifier::external_body]
fn draw_below(generator: &mut ThreadRng, count: usize) -> (drawn: usize)
    requires
        count > 0,
    ensures
        drawn < count,
{
    generator.gen_range(0, count)
}

} // verus!
