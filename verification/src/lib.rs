//! Simulation engine of a falling-block puzzle game: the grid, the piece
//! geometry and its rotation, collision, docking, line clearing and scoring.
//!
//! Every executable function carries a contract over a mathematical model of
//! the data it works on. The model of the whole game is
//! [`board::model::BoardView`], whose `step` function is the reference
//! semantics of one update; [`board::laws`] proves what holds of every
//! board and every update. Around the board stand the plain-value halves
//! of what a front end does: [`display`] for what is shown, [`input`] and
//! [`pacing`] for what the game loop decides, and [`high_score`] for the
//! one line of text that outlives a game.

pub mod action;
pub mod board;
pub mod display;
pub mod high_score;
pub mod input;
pub mod pacing;
pub mod tetromino_move;
pub mod user_action;
pub mod user_move;
