//! What the game loop decides between two frames: the next move, and when
//! the pieces start to fall faster.

use vstd::prelude::*;

use crate::tetromino_move::TetrominoMove;
use crate::user_action::UserAction;

verus! {

/// What the game loop does next.
#[derive(Debug, PartialEq, Eq, Structural, Copy, Clone)]
pub struct NextGameStep {
    /// The move to hand to the board, if any.
    pub opt_tetromino_move: Option<TetrominoMove>,
    /// Whether the time to the next automatic descent starts anew.
    pub restarts_down_timer: bool,
    pub game_over: bool,
}

/// The step that follows from whether the automatic descent is due and
/// from what the player asked for. A due descent comes first, and the
/// player is not heard in that frame. Else a move of the player is the
/// move, and a drop among them restarts the timer of the descent; leaving
/// ends the game; nothing asked is nothing done.
pub open spec fn next_game_step(auto_drop_is_due: bool, user_action: Option<UserAction>)
    -> NextGameStep {
    if auto_drop_is_due {
        NextGameStep {
            opt_tetromino_move: Some(TetrominoMove::AutoDown),
            restarts_down_timer: true,
            game_over: false,
        }
    } else {
        match user_action {
            Some(UserAction::Quit) => NextGameStep {
                opt_tetromino_move: None,
                restarts_down_timer: false,
                game_over: true,
            },
            Some(UserAction::UM(user_move)) => NextGameStep {
                opt_tetromino_move: Some(TetrominoMove::UM(user_move)),
                restarts_down_timer: TetrominoMove::UM(user_move).is_user_descent(),
                game_over: false,
            },
            None => NextGameStep {
                opt_tetromino_move: None,
                restarts_down_timer: false,
                game_over: false,
            },
        }
    }
}

/// What the game loop does next, given whether the automatic descent is
/// due and what the player asked for.
pub fn get_next_game_step(auto_drop_is_due: bool, user_action: Option<UserAction>) -> (step:
    NextGameStep)
    ensures
        step == next_game_step(auto_drop_is_due, user_action),
{
    if auto_drop_is_due {
        return NextGameStep {
            opt_tetromino_move: Some(TetrominoMove::AutoDown),
            restarts_down_timer: true,
            game_over: false,
        };
    }
    let (opt_tetromino_move, game_over) = match user_action {
        Some(UserAction::Quit) => (None, true),
        Some(UserAction::UM(user_move)) => (Some(TetrominoMove::UM(user_move)), false),
        None => (None, false),
    };

    NextGameStep {
        opt_tetromino_move,
        restarts_down_timer: match opt_tetromino_move {
            Some(tet_move) => tet_move.resets_down_timer(),
            None => false,
        },
        game_over,
    }
}

/// The rows cleared so far and the number of them at which the pieces
/// next start to fall faster.
#[derive(Debug, PartialEq, Eq, Structural, Copy, Clone)]
pub struct Leveling {
    pub total_rows_cleared: usize,
    pub next_row_thresh_for_speedup: usize,
}

impl Leveling {
    /// No row is cleared yet; the first speed-up comes with the fourth.
    pub fn new() -> (leveling: Self)
        ensures
            leveling.total_rows_cleared == 0,
            leveling.next_row_thresh_for_speedup == 4,
    {
        Leveling { total_rows_cleared: 0, next_row_thresh_for_speedup: 4 }
    }

    /// Whether the rows cleared so far and `rows` more reach the threshold.
    pub open spec fn reaches_threshold(self, rows: int) -> bool {
        self.total_rows_cleared + rows >= self.next_row_thresh_for_speedup
    }

    /// Counts the rows that an update cleared. When the count reaches the
    /// threshold, the threshold doubles and the result is `true`: the
    /// caller then halves the time between two automatic descents.
    pub fn record_rows_cleared(&mut self, num_rows_cleared_this_update: usize) -> (speed_up: bool)
        requires
            old(self).total_rows_cleared + num_rows_cleared_this_update <= usize::MAX,
            old(self).reaches_threshold(num_rows_cleared_this_update as int) ==> 2 * old(
                self,
            ).next_row_thresh_for_speedup <= usize::MAX,
        ensures
            speed_up == old(self).reaches_threshold(num_rows_cleared_this_update as int),
            final(self).total_rows_cleared == old(self).total_rows_cleared
                + num_rows_cleared_this_update,
            final(self).next_row_thresh_for_speedup == if speed_up {
                2 * old(self).next_row_thresh_for_speedup
            } else {
                old(self).next_row_thresh_for_speedup as int
            },
    {
        self.total_rows_cleared += num_rows_cleared_this_update;
        if self.total_rows_cleared >= self.next_row_thresh_for_speedup {
            self.next_row_thresh_for_speedup += self.next_row_thresh_for_speedup;
            true
        } else {
            false
        }
    }
}

} // verus!
