//! The moves that the board is asked to make.

use vstd::prelude::*;

pub use crate::user_move::UserMove;

verus! {

/// One discrete move of the active piece: either the timed descent or a move
/// that the player asked for.
#[derive(Copy, Clone, Debug, PartialEq, Eq, Structural)]
pub enum TetrominoMove {
    AutoDown,
    UM(UserMove),
}

impl TetrominoMove {
    /// Whether the move is one of the two player-driven descents.
    pub open spec fn is_user_descent(self) -> bool {
        self == TetrominoMove::UM(UserMove::SoftDown) || self == TetrominoMove::UM(
            UserMove::HardDown,
        )
    }

    /// A descent asked for by the player restarts the timer of the automatic one.
    pub fn resets_down_timer(&self) -> (resets: bool)
        ensures
            resets == self.is_user_descent(),
    {
        match self {
            TetrominoMove::UM(UserMove::SoftDown) => true,
            TetrominoMove::UM(UserMove::HardDown) => true,
            _ => false,
        }
    }
}

} // verus!
