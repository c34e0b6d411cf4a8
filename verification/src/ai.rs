//! The choice of a move.

use vstd::prelude::*;
use crate::action::Action;
use crate::board::Board;

verus! {

/// Picks a move for the side to move: the last of its legal moves, in the
/// order of the generator. The side to move must have a legal move. The
/// board is left as it was.
pub fn get_best_move(board: &mut Board) -> (r: Action)
    requires
        old(board)@.consistent(),
        old(board)@.legal().len() > 0,
    ensures
        r == old(board)@.legal().last(),
        *final(board) == *old(board),
{
    let mut moves = board.get_legal_actions();
    moves.pop().unwrap()
}

} // verus!
