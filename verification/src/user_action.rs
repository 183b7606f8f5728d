//! What the player can ask for.

use vstd::prelude::*;

use crate::tetromino_move::TetrominoMove;
use crate::user_move::UserMove;

verus! {

/// What a key press means: a move of the piece, or leaving the game.
#[derive(Debug, PartialEq, Eq, Structural, Copy, Clone)]
pub enum UserAction {
    UM(UserMove),
    Quit,
}

/// The move that an action stands for; `Quit` stands for none.
pub fn to_tetromino_move(action: UserAction) -> (tetromino_move: Option<TetrominoMove>)
    ensures
        tetromino_move == match action {
            UserAction::UM(user_move) => Some(TetrominoMove::UM(user_move)),
            UserAction::Quit => None,
        },
{
    match action {
        UserAction::UM(user_move) => Some(TetrominoMove::UM(user_move)),
        UserAction::Quit => None,
    }
}

} // verus!
