//! Player actions that do not tell a soft drop from a hard one.

use vstd::prelude::*;

use crate::tetromino_move::TetrominoMove;
use crate::user_move::UserMove;

verus! {

/// A flat list of player actions, for front ends that do not tell a soft
/// drop from a hard one.
#[derive(Debug, PartialEq, Eq, Structural, Copy, Clone)]
pub enum Action {
    Down,
    Left,
    Right,
    RotateCW,
    RotateCCW,
    Quit,
}

/// The move that an action stands for: `Down` is the soft drop, `Quit` is no move.
pub fn to_tetromino_move(action: Action) -> (tetromino_move: Option<TetrominoMove>)
    ensures
        tetromino_move == match action {
            Action::Down => Some(TetrominoMove::UM(UserMove::SoftDown)),
            Action::Left => Some(TetrominoMove::UM(UserMove::Left)),
            Action::Right => Some(TetrominoMove::UM(UserMove::Right)),
            Action::RotateCW => Some(TetrominoMove::UM(UserMove::RotateCW)),
            Action::RotateCCW => Some(TetrominoMove::UM(UserMove::RotateCCW)),
            Action::Quit => None,
        },
{
    match action {
        Action::Down => Some(TetrominoMove::UM(UserMove::SoftDown)),
        Action::Left => Some(TetrominoMove::UM(UserMove::Left)),
        Action::Right => Some(TetrominoMove::UM(UserMove::Right)),
        Action::RotateCW => Some(TetrominoMove::UM(UserMove::RotateCW)),
        Action::RotateCCW => Some(TetrominoMove::UM(UserMove::RotateCCW)),
        Action::Quit => None,
    }
}

} // verus!
