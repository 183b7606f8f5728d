//! Coordinates on the grid.

use vstd::prelude::*;

verus! {

/// A grid coordinate: the origin is the top left corner, `x` grows to the
/// right and `y` grows downwards.
#[derive(Debug, PartialEq, Eq, Structural, Copy, Clone)]
pub struct Position {
    pub x: i32,
    pub y: i32,
}

/// The mathematical point that a `Position` stands for.
pub struct Point {
    pub x: int,
    pub y: int,
}

impl Point {
    /// The point moved by `(dx, dy)`.
    pub open spec fn shifted(self, dx: int, dy: int) -> Point {
        Point { x: self.x + dx, y: self.y + dy }
    }

    /// Whether both coordinates can be held by a `Position`.
    pub open spec fn representable(self) -> bool {
        i32::MIN <= self.x <= i32::MAX && i32::MIN <= self.y <= i32::MAX
    }
}

impl View for Position {
    type V = Point;

    open spec fn view(&self) -> Point {
        Point { x: self.x as int, y: self.y as int }
    }
}

/// The points that a sequence of positions stands for, in the same order.
pub open spec fn points_of(positions: Seq<Position>) -> Seq<Point> {
    Seq::new(positions.len(), |i: int| positions[i]@)
}

} // verus!
