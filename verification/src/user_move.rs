//! The moves that the player can ask for.

use vstd::prelude::*;

verus! {

/// A move that the player can ask for.
#[derive(Debug, PartialEq, Eq, Structural, Copy, Clone)]
pub enum UserMove {
    SoftDown,
    HardDown,
    Left,
    Right,
    RotateCW,
    RotateCCW,
}

} // verus!
