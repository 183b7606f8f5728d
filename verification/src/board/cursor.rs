//! The cursor: a piece anchored at a position of the board.

pub mod piece;

use vstd::prelude::*;

use super::position::{points_of, Point, Position};
use piece::{Piece, PieceView, RotationDir, Shape};

verus! {

/// A piece anchored at a position of the board.
pub struct Cursor {
    pub position: Position,
    pub piece: Piece,
}

/// The mathematical content of a `Cursor`.
#[verifier::ext_equal]
pub struct CursorView {
    pub anchor: Point,
    pub piece: PieceView,
}

impl CursorView {
    /// A piece as it is spawned, anchored at `anchor`.
    pub open spec fn spawn(shape: Shape, anchor: Point) -> CursorView {
        CursorView { anchor, piece: PieceView::spawn(shape) }
    }

    /// The same piece anchored elsewhere.
    pub open spec fn moved_to(self, anchor: Point) -> CursorView {
        CursorView { anchor, piece: self.piece }
    }

    /// The same piece, anchored `dx` columns to the right and `dy` rows below.
    pub open spec fn moved_by(self, dx: int, dy: int) -> CursorView {
        self.moved_to(self.anchor.shifted(dx, dy))
    }

    /// The piece after a quarter turn, at the same anchor.
    pub open spec fn rotated(self, dir: RotationDir) -> CursorView {
        CursorView { anchor: self.anchor, piece: self.piece.rotated(dir) }
    }

    /// The cells of the board that the piece covers, in the order of the
    /// cells of the piece.
    pub open spec fn cells(self) -> Seq<Point> {
        Seq::new(
            self.piece.points.len(),
            |i: int| self.piece.points[i].shifted(self.anchor.x, self.anchor.y),
        )
    }

    /// Whether every covered cell has coordinates that a `Position` can hold.
    pub open spec fn cells_representable(self) -> bool {
        forall|i: int|
            0 <= i < self.piece.points.len() ==> (#[trigger] self.piece.points[i]).shifted(
                self.anchor.x,
                self.anchor.y,
            ).representable()
    }
}

impl View for Cursor {
    type V = CursorView;

    open spec fn view(&self) -> CursorView {
        CursorView { anchor: self.position@, piece: self.piece@ }
    }
}

impl Clone for Cursor {
    fn clone(&self) -> (copy: Self)
        ensures
            copy@ == self@,
    {
        Cursor { position: self.position, piece: self.piece.clone() }
    }
}

impl Cursor {
    /// A piece as it is spawned, of a shape drawn at random from the list.
    pub fn from_random_shape_in_list(shape_list: &[Shape], position: Position) -> (cursor: Cursor)
        requires
            shape_list@.len() > 0,
        ensures
            shape_list@.contains(cursor@.piece.shape),
            cursor@ == CursorView::spawn(cursor@.piece.shape, position@),
    {
        Cursor::from_shape(random_shape(shape_list), position)
    }

    /// A piece of the given shape as it is spawned.
    pub fn from_shape(shape: Shape, position: Position) -> (cursor: Cursor)
        ensures
            cursor@ == CursorView::spawn(shape, position@),
    {
        Cursor { position, piece: Piece::new(shape) }
    }

    /// The same piece anchored at `new_position`.
    pub fn offset_copy(&self, new_position: Position) -> (cursor: Cursor)
        ensures
            cursor@ == self@.moved_to(new_position@),
    {
        Cursor { position: new_position, piece: self.piece.clone() }
    }

    /// The piece after a quarter turn clockwise, at the same anchor.
    pub fn rotate_cw_copy(&self) -> (cursor: Cursor)
        ensures
            cursor@ == self@.rotated(RotationDir::Clockwise),
    {
        Cursor { position: self.position, piece: self.piece.rotate_cw_copy() }
    }

    /// The piece after a quarter turn counterclockwise, at the same anchor.
    pub fn rotate_ccw_copy(&self) -> (cursor: Cursor)
        ensures
            cursor@ == self@.rotated(RotationDir::Counterclockwise),
    {
        Cursor { position: self.position, piece: self.piece.rotate_ccw_copy() }
    }

    /// The cells of the board that the piece covers.
    pub fn get_point_positions(&self) -> (positions: Vec<Position>)
        requires
            self@.cells_representable(),
        ensures
            points_of(positions@) == self@.cells(),
    {
        let piece_points = self.piece.get_local_points();
        let local_points = piece_points.clone();
        assert(local_points@ =~= piece_points@);
        assert forall|i: int| 0 <= i < local_points@.len() implies (#[trigger] local_points@[i])@.shifted(
            self.position.x as int,
            self.position.y as int,
        ).representable() by {
            assert(self@.piece.points[i] == local_points@[i]@);
        }
        let positions = offset_points_by_position(local_points, self.position);
        assert(points_of(positions@) =~= self@.cells());
        positions
    }
}

/// `macroquad::prelude::rand::gen_range(0, len)`, which is `gen_range` of
/// the crate `quad-rand`: a number drawn from the process-wide generator.
/// The crate takes the next 32 bits of the generator as a fraction that is
/// at least zero and less than one, multiplies it by `len` in floating
/// point and drops what follows the point, so for a `len` above zero the
/// number is below `len`. Which number it is depends on the state of the
/// generator, so nothing more is claimed.
#[verifier::external_body]
fn random_index(len: usize) -> (index: usize)
    ensures
        len > 0 ==> index < len,
{
    macroquad::prelude::rand::gen_range(0, len)
}

/// A shape drawn at random from the list.
pub fn random_shape(shape_list: &[Shape]) -> (shape: Shape)
    requires
        shape_list@.len() > 0,
    ensures
        shape_list@.contains(shape),
{
    shape_list[random_index(shape_list.len())]
}

/// Moves every point by `pos`.
pub fn offset_points_by_position(points: Vec<Position>, pos: Position) -> (moved: Vec<Position>)
    requires
        forall|i: int|
            0 <= i < points@.len() ==> (#[trigger] points@[i])@.shifted(
                pos.x as int,
                pos.y as int,
            ).representable(),
    ensures
        moved@.len() == points@.len(),
        forall|i: int|
            0 <= i < points@.len() ==> (#[trigger] moved@[i])@ == points@[i]@.shifted(
                pos.x as int,
                pos.y as int,
            ),
{
    let mut points = points;
    let ghost before = points@;
    let mut i: usize = 0;
    while i < points.len()
        invariant
            i <= points.len(),
            points@.len() == before.len(),
            forall|j: int|
                0 <= j < before.len() ==> (#[trigger] before[j])@.shifted(
                    pos.x as int,
                    pos.y as int,
                ).representable(),
            forall|j: int|
                0 <= j < i ==> (#[trigger] points@[j])@ == before[j]@.shifted(
                    pos.x as int,
                    pos.y as int,
                ),
            forall|j: int| i <= j < points@.len() ==> points@[j] == before[j],
        decreases points.len() - i,
    {
        let point = points[i];
        assert(before[i as int]@.shifted(pos.x as int, pos.y as int).representable());
        points[i] = Position { x: point.x + pos.x, y: point.y + pos.y };
        i += 1;
    }
    points
}

} // verus!
