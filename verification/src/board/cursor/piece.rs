//! The shapes, their cells and pivots, and the quarter turn.
//!
//! A pivot may lie between two cells. So that nothing has to be rounded,
//! the turn is computed in half cells: every pivot of the catalog is a
//! whole number of half cells away from every cell.

use vstd::prelude::*;

use crate::board::position::{points_of, Point, Position};

verus! {

/// The seven kinds of piece.
#[derive(Debug, PartialEq, Eq, Structural, Copy, Clone)]
pub enum Shape {
    O,
    I,
    T,
    S,
    Z,
    J,
    L,
}

/// The sense of a quarter turn, as seen on the screen.
#[derive(Debug, PartialEq, Eq, Structural, Copy, Clone)]
pub enum RotationDir {
    Counterclockwise,
    Clockwise,
}

/// A coordinate pair measured in half cells, so that a pivot that lies
/// between two cells is still a pair of integers.
#[derive(Copy, Clone)]
struct HalfPosition {
    x: i64,
    y: i64,
}

impl View for HalfPosition {
    type V = Point;

    closed spec fn view(&self) -> Point {
        Point { x: self.x as int, y: self.y as int }
    }
}

/// The points, in half cells, that a sequence of half positions stands for.
spec fn half_points_of(positions: Seq<HalfPosition>) -> Seq<Point> {
    Seq::new(positions.len(), |i: int| positions[i]@)
}

impl Shape {
    /// The cells of the shape as it is spawned, relative to its anchor.
    pub open spec fn initial_points(self) -> Seq<Point> {
        match self {
            Shape::O => seq![
                Point { x: 0, y: 0 },
                Point { x: 0, y: 1 },
                Point { x: 1, y: 0 },
                Point { x: 1, y: 1 },
            ],
            Shape::I => seq![
                Point { x: -2, y: 0 },
                Point { x: -1, y: 0 },
                Point { x: 0, y: 0 },
                Point { x: 1, y: 0 },
            ],
            Shape::T => seq![
                Point { x: 0, y: 1 },
                Point { x: -1, y: 1 },
                Point { x: 1, y: 1 },
                Point { x: 0, y: 0 },
            ],
            Shape::S => seq![
                Point { x: -1, y: 1 },
                Point { x: 0, y: 1 },
                Point { x: 0, y: 0 },
                Point { x: 1, y: 0 },
            ],
            Shape::Z => seq![
                Point { x: -1, y: 0 },
                Point { x: 0, y: 0 },
                Point { x: 0, y: 1 },
                Point { x: 1, y: 1 },
            ],
            Shape::J => seq![
                Point { x: -1, y: 0 },
                Point { x: -1, y: 1 },
                Point { x: 0, y: 1 },
                Point { x: 1, y: 1 },
            ],
            Shape::L => seq![
                Point { x: -1, y: 1 },
                Point { x: 0, y: 1 },
                Point { x: 1, y: 1 },
                Point { x: 1, y: 0 },
            ],
        }
    }

    /// The pivot of the shape in half cells: `O` turns about the middle of
    /// its square, `I` about the corner between its two middle cells and the
    /// row below, the others about their middle cell.
    pub open spec fn pivot(self) -> Point {
        match self {
            Shape::O => Point { x: 1, y: 1 },
            Shape::I => Point { x: -1, y: 1 },
            _ => Point { x: 0, y: 2 },
        }
    }

    /// Whether the cell offset lies in the square about the pivot that the
    /// shape sweeps when it turns.
    pub open spec fn sweeps(self, p: Point) -> bool {
        match self {
            Shape::O => 0 <= p.x <= 1 && 0 <= p.y <= 1,
            Shape::I => -2 <= p.x <= 1 && -1 <= p.y <= 2,
            _ => -1 <= p.x <= 1 && 0 <= p.y <= 2,
        }
    }

    /// The pivot of the shape in half cells and its cells as it is spawned.
    fn get_rotation_origin_and_initial_point_positions(self) -> (catalog: (
        HalfPosition,
        Vec<Position>,
    ))
        ensures
            catalog.0@ == self.pivot(),
            points_of(catalog.1@) == self.initial_points(),
    {
        let (origin, points) = match self {
            Shape::O => (
                HalfPosition { x: 1, y: 1 },
                vec![
                    Position { x: 0, y: 0 },
                    Position { x: 0, y: 1 },
                    Position { x: 1, y: 0 },
                    Position { x: 1, y: 1 },
                ],
            ),
            Shape::I => (
                HalfPosition { x: -1, y: 1 },
                vec![
                    Position { x: -2, y: 0 },
                    Position { x: -1, y: 0 },
                    Position { x: 0, y: 0 },
                    Position { x: 1, y: 0 },
                ],
            ),
            Shape::T => (
                HalfPosition { x: 0, y: 2 },
                vec![
                    Position { x: 0, y: 1 },
                    Position { x: -1, y: 1 },
                    Position { x: 1, y: 1 },
                    Position { x: 0, y: 0 },
                ],
            ),
            Shape::S => (
                HalfPosition { x: 0, y: 2 },
                vec![
                    Position { x: -1, y: 1 },
                    Position { x: 0, y: 1 },
                    Position { x: 0, y: 0 },
                    Position { x: 1, y: 0 },
                ],
            ),
            Shape::Z => (
                HalfPosition { x: 0, y: 2 },
                vec![
                    Position { x: -1, y: 0 },
                    Position { x: 0, y: 0 },
                    Position { x: 0, y: 1 },
                    Position { x: 1, y: 1 },
                ],
            ),
            Shape::J => (
                HalfPosition { x: 0, y: 2 },
                vec![
                    Position { x: -1, y: 0 },
                    Position { x: -1, y: 1 },
                    Position { x: 0, y: 1 },
                    Position { x: 1, y: 1 },
                ],
            ),
            Shape::L => (
                HalfPosition { x: 0, y: 2 },
                vec![
                    Position { x: -1, y: 1 },
                    Position { x: 0, y: 1 },
                    Position { x: 1, y: 1 },
                    Position { x: 1, y: 0 },
                ],
            ),
        };
        assert(points_of(points@) =~= self.initial_points());
        (origin, points)
    }
}

/// The cell that a coordinate in half cells falls in: the coordinate is
/// halved, a remaining half is dropped towards zero, and the result is held
/// to the range of an `i32`.
pub open spec fn cell_of_half_units(h: int) -> int {
    let halved = if h >= 0 {
        h / 2
    } else {
        -((-h) / 2)
    };
    if halved < i32::MIN {
        i32::MIN as int
    } else if halved > i32::MAX {
        i32::MAX as int
    } else {
        halved
    }
}

/// A cell offset measured from the pivot, in half cells.
pub open spec fn centred(p: Point, pivot: Point) -> Point {
    Point { x: 2 * p.x - pivot.x, y: 2 * p.y - pivot.y }
}

/// A quarter turn about the origin. With `y` growing downwards, exchanging
/// the coordinates and negating the new `x` turns clockwise; negating the
/// new `y` instead turns counterclockwise.
pub open spec fn turned(h: Point, dir: RotationDir) -> Point {
    match dir {
        RotationDir::Clockwise => Point { x: -h.y, y: h.x },
        RotationDir::Counterclockwise => Point { x: h.y, y: -h.x },
    }
}

/// The cell offset that a point measured from the pivot in half cells stands for.
pub open spec fn settled(h: Point, pivot: Point) -> Point {
    Point { x: cell_of_half_units(h.x + pivot.x), y: cell_of_half_units(h.y + pivot.y) }
}

/// A cell offset after a quarter turn about `pivot`, which is given in half cells.
pub open spec fn rotate_point(p: Point, pivot: Point, dir: RotationDir) -> Point {
    settled(turned(centred(p, pivot), dir), pivot)
}

/// Every cell offset of `points` after a quarter turn about `pivot`.
pub open spec fn rotate_points(points: Seq<Point>, pivot: Point, dir: RotationDir) -> Seq<Point> {
    Seq::new(points.len(), |i: int| rotate_point(points[i], pivot, dir))
}

/// Halves a coordinate given in half cells and drops what is left of a cell
/// towards zero; a result beyond the range of an `i32` becomes the nearest
/// bound.
pub fn half_units_to_cell(h: i64) -> (cell: i32)
    ensures
        cell == cell_of_half_units(h as int),
{
    let halved: i64 = if h >= 0 {
        h / 2
    } else if h == i64::MIN {
        i64::MIN / 2
    } else {
        -((-h) / 2)
    };
    if halved < i32::MIN as i64 {
        i32::MIN
    } else if halved > i32::MAX as i64 {
        i32::MAX
    } else {
        halved as i32
    }
}

/// A shape together with the cells it covers in its present orientation,
/// given relative to the anchor of the piece.
pub struct Piece {
    shape: Shape,
    local_point_positions: Vec<Position>,
    local_rotation_origin: HalfPosition,
}

/// The mathematical content of a `Piece`. The pivot is not part of it: it is
/// always the pivot of the shape.
#[verifier::ext_equal]
pub struct PieceView {
    pub shape: Shape,
    pub points: Seq<Point>,
}

impl PieceView {
    /// The piece as it is spawned.
    pub open spec fn spawn(shape: Shape) -> PieceView {
        PieceView { shape, points: shape.initial_points() }
    }

    /// The piece after a quarter turn.
    pub open spec fn rotated(self, dir: RotationDir) -> PieceView {
        PieceView { shape: self.shape, points: rotate_points(self.points, self.shape.pivot(), dir) }
    }

    /// The piece after `turns` quarter turns clockwise from the way it is spawned.
    pub open spec fn quarter_turns(shape: Shape, turns: nat) -> PieceView
        decreases turns,
    {
        if turns == 0 {
            PieceView::spawn(shape)
        } else {
            PieceView::quarter_turns(shape, (turns - 1) as nat).rotated(RotationDir::Clockwise)
        }
    }

    /// Whether the piece is its shape in one of its four orientations.
    pub open spec fn is_oriented(self) -> bool {
        ||| self == PieceView::quarter_turns(self.shape, 0)
        ||| self == PieceView::quarter_turns(self.shape, 1)
        ||| self == PieceView::quarter_turns(self.shape, 2)
        ||| self == PieceView::quarter_turns(self.shape, 3)
    }

    /// Whether the piece has four cells, all of them in the square that its
    /// shape sweeps when it turns.
    pub open spec fn is_compact(self) -> bool {
        &&& self.points.len() == 4
        &&& forall|i: int| 0 <= i < 4 ==> self.shape.sweeps(#[trigger] self.points[i])
    }

    /// Whether no two cells of the piece are the same.
    pub open spec fn has_distinct_cells(self) -> bool {
        forall|i: int, j: int|
            0 <= i < j < self.points.len() ==> #[trigger] self.points[i] != #[trigger] self.points[j]
    }
}

impl View for Piece {
    type V = PieceView;

    closed spec fn view(&self) -> PieceView {
        PieceView { shape: self.shape, points: points_of(self.local_point_positions@) }
    }
}

impl Clone for Piece {
    fn clone(&self) -> (copy: Self)
        ensures
            copy@ == self@,
    {
        proof {
            use_type_invariant(self);
        }
        let points = self.local_point_positions.clone();
        assert(points@ =~= self.local_point_positions@);
        Piece {
            shape: self.shape,
            local_point_positions: points,
            local_rotation_origin: self.local_rotation_origin,
        }
    }
}

impl Piece {
    /// What holds of every piece: the pivot it keeps is the pivot of its
    /// shape.
    #[verifier::type_invariant]
    spec fn turns_about_the_pivot_of_its_shape(self) -> bool {
        self.local_rotation_origin@ == self.shape.pivot()
    }

    /// The piece of the given shape as it is spawned.
    pub fn new(shape: Shape) -> (piece: Self)
        ensures
            piece@ == PieceView::spawn(shape),
            piece@.is_oriented(),
    {
        let (local_rotation_origin, local_point_positions) =
            shape.get_rotation_origin_and_initial_point_positions();
        Piece { shape, local_point_positions, local_rotation_origin }
    }

    /// A piece of the same shape that covers the given cells.
    pub fn from(&self, local_point_positions: Vec<Position>) -> (piece: Self)
        ensures
            piece@ == (PieceView { shape: self@.shape, points: points_of(local_point_positions@) }),
    {
        proof {
            use_type_invariant(self);
        }
        Piece {
            shape: self.shape,
            local_point_positions,
            local_rotation_origin: self.local_rotation_origin,
        }
    }

    /// The piece after a quarter turn clockwise. A silhouette of the shape
    /// turns into a silhouette of the shape, which has four distinct cells.
    pub fn rotate_cw_copy(&self) -> (piece: Self)
        ensures
            piece@ == self@.rotated(RotationDir::Clockwise),
            self@.is_oriented() ==> piece@.is_oriented() && piece@.points.len() == 4
                && piece@.has_distinct_cells(),
    {
        proof {
            if self@.is_oriented() {
                lemma_rotation_keeps_orientation(self@, RotationDir::Clockwise);
                lemma_oriented_is_compact(self@.rotated(RotationDir::Clockwise));
            }
        }
        rotate_90_deg(self, &RotationDir::Clockwise)
    }

    /// The piece after a quarter turn counterclockwise. A silhouette of the
    /// shape turns into a silhouette of the shape, which has four distinct
    /// cells.
    pub fn rotate_ccw_copy(&self) -> (piece: Self)
        ensures
            piece@ == self@.rotated(RotationDir::Counterclockwise),
            self@.is_oriented() ==> piece@.is_oriented() && piece@.points.len() == 4
                && piece@.has_distinct_cells(),
    {
        proof {
            if self@.is_oriented() {
                lemma_rotation_keeps_orientation(self@, RotationDir::Counterclockwise);
                lemma_oriented_is_compact(self@.rotated(RotationDir::Counterclockwise));
            }
        }
        rotate_90_deg(self, &RotationDir::Counterclockwise)
    }

    /// The cells of the piece, relative to its anchor.
    pub fn get_local_points(&self) -> (points: &Vec<Position>)
        ensures
            points_of(points@) == self@.points,
    {
        &self.local_point_positions
    }
}

/// The piece after a quarter turn: its cells are centred on the pivot,
/// turned about the origin and moved back.
fn rotate_90_deg(piece: &Piece, dir: &RotationDir) -> (turned_piece: Piece)
    ensures
        turned_piece@ == piece@.rotated(*dir),
{
    proof {
        use_type_invariant(piece);
    }
    let mut points_centered_at_origin = offset_to_center(
        &piece.local_point_positions,
        &piece.local_rotation_origin,
    );
    let ghost centred_points = half_points_of(points_centered_at_origin@);

    swap_xs_and_ys(&mut points_centered_at_origin);
    assert(within_reach(points_centered_at_origin@));

    // The origin of the board is its upper left corner: x grows to the right
    // and y grows downwards. So after the coordinates are exchanged, negating
    // the xs turns clockwise. On a plane where y grows upwards it would be
    // the ys.
    match dir {
        RotationDir::Clockwise => negate_xs(&mut points_centered_at_origin),
        RotationDir::Counterclockwise => negate_ys(&mut points_centered_at_origin),
    }
    assert(within_reach(points_centered_at_origin@));
    assert(half_points_of(points_centered_at_origin@) =~= Seq::new(
        centred_points.len(),
        |i: int| turned(centred_points[i], *dir),
    ));

    let local_point_positions = offset_from_center(
        &points_centered_at_origin,
        &piece.local_rotation_origin,
    );
    assert(points_of(local_point_positions@) =~= piece@.rotated(*dir).points) by {
        let turned_points = half_points_of(points_centered_at_origin@);
        assert forall|i: int| 0 <= i < piece@.points.len() implies points_of(
            local_point_positions@,
        )[i] == rotate_point(piece@.points[i], piece@.shape.pivot(), *dir) by {
            assert(centred_points[i] == centred(piece@.points[i], piece@.shape.pivot()));
            assert(turned_points[i] == turned(centred_points[i], *dir));
        }
    }

    piece.from(local_point_positions)
}

/// Whether every half position is what `centred` gives for some cell offset
/// and one of the pivots of the catalog, or a quarter turn of that: far from
/// the ends of `i64`.
spec fn within_reach(half_posns: Seq<HalfPosition>) -> bool {
    forall|i: int|
        0 <= i < half_posns.len() ==> -0x2_0000_0000 <= (#[trigger] half_posns[i]).x
            <= 0x2_0000_0000 && -0x2_0000_0000 <= half_posns[i].y <= 0x2_0000_0000
}

/// The cell offsets measured from `center`, in half cells.
fn offset_to_center(positions: &[Position], center: &HalfPosition) -> (centred_points: Vec<
    HalfPosition,
>)
    requires
        -2 <= center.x <= 2,
        -2 <= center.y <= 2,
    ensures
        half_points_of(centred_points@) == Seq::new(
            positions@.len(),
            |i: int| centred(positions@[i]@, center@),
        ),
        within_reach(centred_points@),
{
    let mut centred_points: Vec<HalfPosition> = Vec::new();
    let mut i: usize = 0;
    while i < positions.len()
        invariant
            i <= positions.len(),
            -2 <= center.x <= 2,
            -2 <= center.y <= 2,
            centred_points@.len() == i,
            forall|j: int|
                0 <= j < i ==> (#[trigger] centred_points@[j])@ == centred(
                    positions@[j]@,
                    center@,
                ),
            within_reach(centred_points@),
        decreases positions.len() - i,
    {
        let pos = positions[i];
        centred_points.push(
            HalfPosition { x: 2 * (pos.x as i64) - center.x, y: 2 * (pos.y as i64) - center.y },
        );
        i += 1;
    }
    assert(half_points_of(centred_points@) =~= Seq::new(
        positions@.len(),
        |i: int| centred(positions@[i]@, center@),
    ));
    centred_points
}

/// Exchanges the two coordinates of every point.
fn swap_xs_and_ys(half_posns: &mut [HalfPosition])
    ensures
        final(half_posns)@.len() == old(half_posns)@.len(),
        forall|i: int|
            0 <= i < old(half_posns)@.len() ==> (#[trigger] final(half_posns)@[i]).x == old(
                half_posns,
            )@[i].y && final(half_posns)@[i].y == old(half_posns)@[i].x,
{
    let mut i: usize = 0;
    while i < half_posns.len()
        invariant
            i <= half_posns.len(),
            half_posns@.len() == old(half_posns)@.len(),
            forall|j: int|
                0 <= j < i ==> (#[trigger] half_posns@[j]).x == old(half_posns)@[j].y
                    && half_posns@[j].y == old(half_posns)@[j].x,
            forall|j: int| i <= j < half_posns@.len() ==> half_posns@[j] == old(half_posns)@[j],
        decreases half_posns.len() - i,
    {
        let pos = half_posns[i];
        half_posns[i] = HalfPosition { x: pos.y, y: pos.x };
        i += 1;
    }
}

/// Negates the first coordinate of every point.
fn negate_xs(half_posns: &mut [HalfPosition])
    requires
        forall|i: int| 0 <= i < old(half_posns)@.len() ==> old(half_posns)@[i].x > i64::MIN,
    ensures
        final(half_posns)@.len() == old(half_posns)@.len(),
        forall|i: int|
            0 <= i < old(half_posns)@.len() ==> (#[trigger] final(half_posns)@[i]).x == -old(
                half_posns,
            )@[i].x && final(half_posns)@[i].y == old(half_posns)@[i].y,
{
    let mut i: usize = 0;
    while i < half_posns.len()
        invariant
            i <= half_posns.len(),
            half_posns@.len() == old(half_posns)@.len(),
            forall|j: int| 0 <= j < old(half_posns)@.len() ==> old(half_posns)@[j].x > i64::MIN,
            forall|j: int|
                0 <= j < i ==> (#[trigger] half_posns@[j]).x == -old(half_posns)@[j].x
                    && half_posns@[j].y == old(half_posns)@[j].y,
            forall|j: int| i <= j < half_posns@.len() ==> half_posns@[j] == old(half_posns)@[j],
        decreases half_posns.len() - i,
    {
        let pos = half_posns[i];
        half_posns[i] = HalfPosition { x: -pos.x, y: pos.y };
        i += 1;
    }
}

/// Negates the second coordinate of every point.
fn negate_ys(half_posns: &mut [HalfPosition])
    requires
        forall|i: int| 0 <= i < old(half_posns)@.len() ==> old(half_posns)@[i].y > i64::MIN,
    ensures
        final(half_posns)@.len() == old(half_posns)@.len(),
        forall|i: int|
            0 <= i < old(half_posns)@.len() ==> (#[trigger] final(half_posns)@[i]).x == old(
                half_posns,
            )@[i].x && final(half_posns)@[i].y == -old(half_posns)@[i].y,
{
    let mut i: usize = 0;
    while i < half_posns.len()
        invariant
            i <= half_posns.len(),
            half_posns@.len() == old(half_posns)@.len(),
            forall|j: int| 0 <= j < old(half_posns)@.len() ==> old(half_posns)@[j].y > i64::MIN,
            forall|j: int|
                0 <= j < i ==> (#[trigger] half_posns@[j]).x == old(half_posns)@[j].x
                    && half_posns@[j].y == -old(half_posns)@[j].y,
            forall|j: int| i <= j < half_posns@.len() ==> half_posns@[j] == old(half_posns)@[j],
        decreases half_posns.len() - i,
    {
        let pos = half_posns[i];
        half_posns[i] = HalfPosition { x: pos.x, y: -pos.y };
        i += 1;
    }
}

/// The cell offsets that the points, measured from `center` in half cells,
/// stand for.
fn offset_from_center(half_positions: &[HalfPosition], center: &HalfPosition) -> (positions:
    Vec<Position>)
    requires
        -2 <= center.x <= 2,
        -2 <= center.y <= 2,
        within_reach(half_positions@),
    ensures
        points_of(positions@) == Seq::new(
            half_positions@.len(),
            |i: int| settled(half_positions@[i]@, center@),
        ),
{
    let mut positions: Vec<Position> = Vec::new();
    let mut i: usize = 0;
    while i < half_positions.len()
        invariant
            i <= half_positions.len(),
            -2 <= center.x <= 2,
            -2 <= center.y <= 2,
            within_reach(half_positions@),
            positions@.len() == i,
            forall|j: int|
                0 <= j < i ==> (#[trigger] positions@[j])@ == settled(
                    half_positions@[j]@,
                    center@,
                ),
        decreases half_positions.len() - i,
    {
        let half_pos = half_positions[i];
        positions.push(
            Position {
                x: half_units_to_cell(half_pos.x + center.x),
                y: half_units_to_cell(half_pos.y + center.y),
            },
        );
        i += 1;
    }
    assert(points_of(positions@) =~= Seq::new(
        half_positions@.len(),
        |i: int| settled(half_positions@[i]@, center@),
    ));
    positions
}

/// For every pivot of the catalog and every cell offset that is not at the
/// very edge of the `i32` range, a quarter turn is an exact turn of the
/// plane: the offset `(x, y)` goes to `(a - y, b + x)` clockwise and to
/// `(y - b, a - x)` counterclockwise, where `(a, b)` is `(1, 0)` for `O`,
/// `(0, 1)` for `I` and `(1, 1)` for the other shapes. Nothing is rounded.
pub proof fn lemma_quarter_turn_is_exact(shape: Shape, p: Point, dir: RotationDir)
    requires
        -0x4000_0000 <= p.x <= 0x4000_0000,
        -0x4000_0000 <= p.y <= 0x4000_0000,
    ensures
        rotate_point(p, shape.pivot(), dir) == match dir {
            RotationDir::Clockwise => Point {
                x: (shape.pivot().x + shape.pivot().y) / 2 - p.y,
                y: (shape.pivot().y - shape.pivot().x) / 2 + p.x,
            },
            RotationDir::Counterclockwise => Point {
                x: p.y - (shape.pivot().y - shape.pivot().x) / 2,
                y: (shape.pivot().x + shape.pivot().y) / 2 - p.x,
            },
        },
{
}

/// A quarter turn one way followed by a quarter turn the other way gives
/// the cell offset back.
pub proof fn lemma_opposite_quarter_turns_cancel(shape: Shape, p: Point, dir: RotationDir)
    requires
        -0x2000_0000 <= p.x <= 0x2000_0000,
        -0x2000_0000 <= p.y <= 0x2000_0000,
    ensures
        rotate_point(
            rotate_point(p, shape.pivot(), dir),
            shape.pivot(),
            match dir {
                RotationDir::Clockwise => RotationDir::Counterclockwise,
                RotationDir::Counterclockwise => RotationDir::Clockwise,
            },
        ) == p,
{
    let opposite = match dir {
        RotationDir::Clockwise => RotationDir::Counterclockwise,
        RotationDir::Counterclockwise => RotationDir::Clockwise,
    };
    lemma_quarter_turn_is_exact(shape, p, dir);
    lemma_quarter_turn_is_exact(shape, rotate_point(p, shape.pivot(), dir), opposite);
}

/// Four quarter turns the same way give the cell offset back.
pub proof fn lemma_four_quarter_turns_of_a_point(shape: Shape, p: Point, dir: RotationDir)
    requires
        -0x2000_0000 <= p.x <= 0x2000_0000,
        -0x2000_0000 <= p.y <= 0x2000_0000,
    ensures
        rotate_point(
            rotate_point(
                rotate_point(rotate_point(p, shape.pivot(), dir), shape.pivot(), dir),
                shape.pivot(),
                dir,
            ),
            shape.pivot(),
            dir,
        ) == p,
{
    let a = (shape.pivot().x + shape.pivot().y) / 2;
    let b = (shape.pivot().y - shape.pivot().x) / 2;
    assert(0 <= a <= 1 && 0 <= b <= 1);
    let once = rotate_point(p, shape.pivot(), dir);
    lemma_quarter_turn_is_exact(shape, p, dir);
    let twice = rotate_point(once, shape.pivot(), dir);
    lemma_quarter_turn_is_exact(shape, once, dir);
    assert(twice == Point { x: a - b - p.x, y: a + b - p.y });
    let thrice = rotate_point(twice, shape.pivot(), dir);
    lemma_quarter_turn_is_exact(shape, twice, dir);
    lemma_quarter_turn_is_exact(shape, thrice, dir);
}

/// A quarter turn keeps a cell offset inside the square that the shape sweeps.
pub proof fn lemma_quarter_turn_stays_in_sweep(shape: Shape, p: Point, dir: RotationDir)
    requires
        shape.sweeps(p),
    ensures
        shape.sweeps(rotate_point(p, shape.pivot(), dir)),
{
    lemma_quarter_turn_is_exact(shape, p, dir);
}

/// A quarter turn of a compact piece is compact.
pub proof fn lemma_rotation_keeps_compact(piece: PieceView, dir: RotationDir)
    requires
        piece.is_compact(),
    ensures
        piece.rotated(dir).is_compact(),
{
    assert forall|i: int| 0 <= i < 4 implies piece.shape.sweeps(
        #[trigger] piece.rotated(dir).points[i],
    ) by {
        lemma_quarter_turn_stays_in_sweep(piece.shape, piece.points[i], dir);
    }
}

/// Two different cells stay different under a quarter turn, so a compact
/// piece whose cells are distinct keeps four distinct cells.
pub proof fn lemma_rotation_keeps_cells_distinct(piece: PieceView, dir: RotationDir)
    requires
        piece.is_compact(),
        piece.has_distinct_cells(),
    ensures
        piece.rotated(dir).has_distinct_cells(),
{
    assert forall|i: int, j: int| 0 <= i < j < 4 implies #[trigger] piece.rotated(dir).points[i]
        != #[trigger] piece.rotated(dir).points[j] by {
        assert(piece.shape.sweeps(piece.points[i]));
        assert(piece.shape.sweeps(piece.points[j]));
        assert(piece.points[i] != piece.points[j]);
        lemma_quarter_turn_is_exact(piece.shape, piece.points[i], dir);
        lemma_quarter_turn_is_exact(piece.shape, piece.points[j], dir);
    }
}

/// A piece as it is spawned is compact and has four distinct cells.
pub proof fn lemma_spawn_is_compact(shape: Shape)
    ensures
        PieceView::spawn(shape).is_compact(),
        PieceView::spawn(shape).has_distinct_cells(),
{
}

/// Every number of quarter turns of a spawned piece gives a compact piece
/// of four distinct cells.
pub proof fn lemma_quarter_turns_are_compact(shape: Shape, turns: nat)
    ensures
        PieceView::quarter_turns(shape, turns).shape == shape,
        PieceView::quarter_turns(shape, turns).is_compact(),
        PieceView::quarter_turns(shape, turns).has_distinct_cells(),
    decreases turns,
{
    if turns == 0 {
        lemma_spawn_is_compact(shape);
    } else {
        let before = PieceView::quarter_turns(shape, (turns - 1) as nat);
        lemma_quarter_turns_are_compact(shape, (turns - 1) as nat);
        lemma_rotation_keeps_compact(before, RotationDir::Clockwise);
        lemma_rotation_keeps_cells_distinct(before, RotationDir::Clockwise);
    }
}

/// An oriented piece is compact and its four cells are distinct: every
/// orientation is a silhouette of the shape.
pub proof fn lemma_oriented_is_compact(piece: PieceView)
    requires
        piece.is_oriented(),
    ensures
        piece.is_compact(),
        piece.has_distinct_cells(),
{
    lemma_quarter_turns_are_compact(piece.shape, 0);
    lemma_quarter_turns_are_compact(piece.shape, 1);
    lemma_quarter_turns_are_compact(piece.shape, 2);
    lemma_quarter_turns_are_compact(piece.shape, 3);
}

/// Four quarter turns the same way, clockwise or counterclockwise, give a
/// compact piece back cell for cell.
pub proof fn lemma_four_rotations_restore(piece: PieceView, dir: RotationDir)
    requires
        piece.is_compact(),
    ensures
        piece.rotated(dir).rotated(dir).rotated(dir).rotated(dir) == piece,
{
    let last = piece.rotated(dir).rotated(dir).rotated(dir).rotated(dir);
    assert forall|i: int| 0 <= i < 4 implies last.points[i] == piece.points[i] by {
        assert(piece.shape.sweeps(piece.points[i]));
        lemma_four_quarter_turns_of_a_point(piece.shape, piece.points[i], dir);
    }
    assert(last =~= piece);
}

/// Rotation round trip for every shape: four quarter turns the same way
/// give every shape back as it was, cell for cell, from the way it is
/// spawned and from each of its orientations.
pub proof fn lemma_rotation_round_trip(piece: PieceView, dir: RotationDir)
    requires
        piece.is_oriented(),
    ensures
        piece.rotated(dir).rotated(dir).rotated(dir).rotated(dir) == piece,
        PieceView::spawn(piece.shape).rotated(dir).rotated(dir).rotated(dir).rotated(dir)
            == PieceView::spawn(piece.shape),
{
    lemma_oriented_is_compact(piece);
    lemma_four_rotations_restore(piece, dir);
    lemma_spawn_is_compact(piece.shape);
    lemma_four_rotations_restore(PieceView::spawn(piece.shape), dir);
}

/// A quarter turn one way followed by one the other way gives a compact
/// piece back cell for cell.
pub proof fn lemma_opposite_rotations_cancel(piece: PieceView, dir: RotationDir)
    requires
        piece.is_compact(),
    ensures
        piece.rotated(dir).rotated(
            match dir {
                RotationDir::Clockwise => RotationDir::Counterclockwise,
                RotationDir::Counterclockwise => RotationDir::Clockwise,
            },
        ) == piece,
{
    let opposite = match dir {
        RotationDir::Clockwise => RotationDir::Counterclockwise,
        RotationDir::Counterclockwise => RotationDir::Clockwise,
    };
    let back = piece.rotated(dir).rotated(opposite);
    assert forall|i: int| 0 <= i < 4 implies back.points[i] == piece.points[i] by {
        assert(piece.shape.sweeps(piece.points[i]));
        lemma_opposite_quarter_turns_cancel(piece.shape, piece.points[i], dir);
    }
    assert(back =~= piece);
}

/// A quarter turn of an oriented piece is an oriented piece: turning never
/// leaves the four silhouettes of the shape.
pub proof fn lemma_rotation_keeps_orientation(piece: PieceView, dir: RotationDir)
    requires
        piece.is_oriented(),
    ensures
        piece.rotated(dir).is_oriented(),
{
    let shape = piece.shape;
    let q0 = PieceView::quarter_turns(shape, 0);
    let q1 = PieceView::quarter_turns(shape, 1);
    let q2 = PieceView::quarter_turns(shape, 2);
    let q3 = PieceView::quarter_turns(shape, 3);
    lemma_quarter_turns_are_compact(shape, 0);
    lemma_quarter_turns_are_compact(shape, 1);
    lemma_quarter_turns_are_compact(shape, 2);
    lemma_quarter_turns_are_compact(shape, 3);
    assert(q1 == q0.rotated(RotationDir::Clockwise));
    assert(q2 == q1.rotated(RotationDir::Clockwise));
    assert(q3 == q2.rotated(RotationDir::Clockwise));
    lemma_four_rotations_restore(q0, RotationDir::Clockwise);
    assert(q3.rotated(RotationDir::Clockwise) == q0);
    match dir {
        RotationDir::Clockwise => {},
        RotationDir::Counterclockwise => {
            lemma_opposite_rotations_cancel(q0, RotationDir::Clockwise);
            lemma_opposite_rotations_cancel(q1, RotationDir::Clockwise);
            lemma_opposite_rotations_cancel(q2, RotationDir::Clockwise);
            lemma_opposite_rotations_cancel(q3, RotationDir::Clockwise);
        },
    }
}

} // verus!
