use quads::board::cursor::piece::{half_units_to_cell, Piece, Shape};
use quads::board::cursor::{offset_points_by_position, Cursor};
use quads::board::position::Position;

const ALL_SHAPES: [Shape; 7] =
    [Shape::O, Shape::I, Shape::T, Shape::S, Shape::Z, Shape::J, Shape::L];

fn points(piece: &Piece) -> Vec<(i32, i32)> {
    piece.get_local_points().iter().map(|p| (p.x, p.y)).collect()
}

fn positions(cells: &[(i32, i32)]) -> Vec<Position> {
    cells.iter().map(|&(x, y)| Position { x, y }).collect()
}

#[test]
fn every_shape_is_spawned_with_the_cells_of_the_catalog() {
    assert_eq!(points(&Piece::new(Shape::O)), vec![(0, 0), (0, 1), (1, 0), (1, 1)]);
    assert_eq!(points(&Piece::new(Shape::I)), vec![(-2, 0), (-1, 0), (0, 0), (1, 0)]);
    assert_eq!(points(&Piece::new(Shape::T)), vec![(0, 1), (-1, 1), (1, 1), (0, 0)]);
    assert_eq!(points(&Piece::new(Shape::S)), vec![(-1, 1), (0, 1), (0, 0), (1, 0)]);
    assert_eq!(points(&Piece::new(Shape::Z)), vec![(-1, 0), (0, 0), (0, 1), (1, 1)]);
    assert_eq!(points(&Piece::new(Shape::J)), vec![(-1, 0), (-1, 1), (0, 1), (1, 1)]);
    assert_eq!(points(&Piece::new(Shape::L)), vec![(-1, 1), (0, 1), (1, 1), (1, 0)]);
}

#[test]
fn t_turns_clockwise_about_its_middle_cell() {
    let turned = Piece::new(Shape::T).rotate_cw_copy();
    assert_eq!(points(&turned), vec![(0, 1), (0, 0), (0, 2), (1, 1)]);
}

#[test]
fn t_turns_counterclockwise_about_its_middle_cell() {
    let turned = Piece::new(Shape::T).rotate_ccw_copy();
    assert_eq!(points(&turned), vec![(0, 1), (0, 2), (0, 0), (-1, 1)]);
}

#[test]
fn i_turns_about_a_corner_between_cells() {
    let upright = Piece::new(Shape::I).rotate_cw_copy();
    assert_eq!(points(&upright), vec![(0, -1), (0, 0), (0, 1), (0, 2)]);
    let flat = upright.rotate_cw_copy();
    assert_eq!(points(&flat), vec![(1, 1), (0, 1), (-1, 1), (-2, 1)]);
    let upright_left = Piece::new(Shape::I).rotate_ccw_copy();
    assert_eq!(points(&upright_left), vec![(-1, 2), (-1, 1), (-1, 0), (-1, -1)]);
}

#[test]
fn o_covers_the_same_square_in_every_orientation() {
    let mut piece = Piece::new(Shape::O);
    for _ in 0..4 {
        piece = piece.rotate_cw_copy();
        let mut cells = points(&piece);
        cells.sort();
        assert_eq!(cells, vec![(0, 0), (0, 1), (1, 0), (1, 1)]);
    }
}

#[test]
fn four_clockwise_turns_restore_every_shape() {
    for shape in ALL_SHAPES {
        let piece = Piece::new(shape);
        let back = piece.rotate_cw_copy().rotate_cw_copy().rotate_cw_copy().rotate_cw_copy();
        assert_eq!(points(&back), points(&piece));
    }
}

#[test]
fn four_counterclockwise_turns_restore_every_shape() {
    for shape in ALL_SHAPES {
        let piece = Piece::new(shape);
        let back = piece.rotate_ccw_copy().rotate_ccw_copy().rotate_ccw_copy().rotate_ccw_copy();
        assert_eq!(points(&back), points(&piece));
    }
}

#[test]
fn opposite_turns_cancel_for_every_shape() {
    for shape in ALL_SHAPES {
        let piece = Piece::new(shape);
        assert_eq!(points(&piece.rotate_cw_copy().rotate_ccw_copy()), points(&piece));
        assert_eq!(points(&piece.rotate_ccw_copy().rotate_cw_copy()), points(&piece));
    }
}

#[test]
fn every_orientation_has_four_distinct_cells() {
    for shape in ALL_SHAPES {
        let mut piece = Piece::new(shape);
        for _ in 0..4 {
            let mut cells = points(&piece);
            cells.sort();
            cells.dedup();
            assert_eq!(cells.len(), 4);
            piece = piece.rotate_cw_copy();
        }
    }
}

#[test]
fn half_cells_are_dropped_towards_zero() {
    assert_eq!(half_units_to_cell(0), 0);
    assert_eq!(half_units_to_cell(1), 0);
    assert_eq!(half_units_to_cell(2), 1);
    assert_eq!(half_units_to_cell(3), 1);
    assert_eq!(half_units_to_cell(4), 2);
    assert_eq!(half_units_to_cell(-1), 0);
    assert_eq!(half_units_to_cell(-2), -1);
    assert_eq!(half_units_to_cell(-3), -1);
    assert_eq!(half_units_to_cell(-4), -2);
}

#[test]
fn cells_beyond_the_range_become_the_nearest_bound() {
    assert_eq!(half_units_to_cell(2 * (i32::MAX as i64)), i32::MAX);
    assert_eq!(half_units_to_cell(2 * (i32::MAX as i64) + 2), i32::MAX);
    assert_eq!(half_units_to_cell(2 * (i32::MIN as i64)), i32::MIN);
    assert_eq!(half_units_to_cell(2 * (i32::MIN as i64) - 2), i32::MIN);
    assert_eq!(half_units_to_cell(i64::MAX), i32::MAX);
    assert_eq!(half_units_to_cell(i64::MIN), i32::MIN);
}

#[test]
fn a_turn_of_a_far_cell_is_held_to_the_range() {
    let piece = Piece::new(Shape::O).from(positions(&[(0, i32::MIN), (i32::MAX, 0)]));
    // Clockwise about (0.5, 0.5): (x, y) goes to (1 - y, x).
    assert_eq!(points(&piece.rotate_cw_copy()), vec![(i32::MAX, 0), (1, i32::MAX)]);
}

#[test]
fn from_keeps_the_shape_and_takes_the_cells() {
    let piece = Piece::new(Shape::I).from(positions(&[(3, 4)]));
    assert_eq!(points(&piece), vec![(3, 4)]);
    // Still turns about the pivot of I, (-0.5, 0.5): (x, y) goes to (-y, 1 + x).
    assert_eq!(points(&piece.rotate_cw_copy()), vec![(-4, 4)]);
}

#[test]
fn a_clone_has_the_same_cells() {
    let piece = Piece::new(Shape::S).rotate_cw_copy();
    assert_eq!(points(&piece.clone()), points(&piece));
}

#[test]
fn cursor_cells_are_the_cells_of_the_piece_moved_to_the_anchor() {
    let cursor = Cursor::from_shape(Shape::L, Position { x: 4, y: 7 });
    let cells: Vec<(i32, i32)> = cursor.get_point_positions().iter().map(|p| (p.x, p.y)).collect();
    assert_eq!(cells, vec![(3, 8), (4, 8), (5, 8), (5, 7)]);
}

#[test]
fn offset_copy_moves_the_anchor_only() {
    let cursor = Cursor::from_shape(Shape::Z, Position { x: 4, y: 0 });
    let moved = cursor.offset_copy(Position { x: -3, y: 9 });
    assert_eq!(moved.position, Position { x: -3, y: 9 });
    assert_eq!(points(&moved.piece), points(&cursor.piece));
}

#[test]
fn cursor_turns_keep_the_anchor() {
    let cursor = Cursor::from_shape(Shape::J, Position { x: 2, y: 5 });
    let cw = cursor.rotate_cw_copy();
    assert_eq!(cw.position, Position { x: 2, y: 5 });
    assert_eq!(points(&cw.piece), points(&cursor.piece.rotate_cw_copy()));
    let ccw = cursor.rotate_ccw_copy();
    assert_eq!(ccw.position, Position { x: 2, y: 5 });
    assert_eq!(points(&ccw.piece), points(&cursor.piece.rotate_ccw_copy()));
}

#[test]
fn a_cursor_clone_is_the_same_cursor() {
    let cursor = Cursor::from_shape(Shape::T, Position { x: 1, y: 2 }).rotate_ccw_copy();
    let copy = cursor.clone();
    assert_eq!(copy.position, cursor.position);
    assert_eq!(points(&copy.piece), points(&cursor.piece));
}

#[test]
fn a_shape_drawn_from_a_list_of_one_is_that_shape() {
    for shape in ALL_SHAPES {
        let cursor = Cursor::from_random_shape_in_list(&[shape], Position { x: 4, y: 0 });
        assert_eq!(cursor.position, Position { x: 4, y: 0 });
        assert_eq!(points(&cursor.piece), points(&Piece::new(shape)));
    }
}

#[test]
fn a_shape_drawn_from_a_list_is_in_the_list() {
    let list = [Shape::S, Shape::Z];
    for _ in 0..50 {
        let cursor = Cursor::from_random_shape_in_list(&list, Position { x: 0, y: 0 });
        let cells = points(&cursor.piece);
        assert!(cells == points(&Piece::new(Shape::S)) || cells == points(&Piece::new(Shape::Z)));
    }
}

#[test]
fn points_are_offset_one_by_one() {
    let moved = offset_points_by_position(positions(&[(0, 0), (-2, 5)]), Position { x: 3, y: -1 });
    assert_eq!(moved, positions(&[(3, -1), (1, 4)]));
}

/// The quarter turn in floating point: the cells are centred on the pivot,
/// their coordinates exchanged, one of them negated, the pivot added back,
/// and the result rounded to the nearest half and cut off to an integer.
fn turn_in_floating_point(cells: &[(i32, i32)], pivot: (f64, f64), clockwise: bool) -> Vec<(i32, i32)> {
    cells
        .iter()
        .map(|&(x, y)| {
            let (mut fx, mut fy) = (x as f64 - pivot.0, y as f64 - pivot.1);
            std::mem::swap(&mut fx, &mut fy);
            if clockwise {
                fx = -fx;
            } else {
                fy = -fy;
            }
            let rx = ((fx + pivot.0) * 2.0).round() / 2.0;
            let ry = ((fy + pivot.1) * 2.0).round() / 2.0;
            (rx as i32, ry as i32)
        })
        .collect()
}

fn pivot_of(shape: Shape) -> (f64, f64) {
    match shape {
        Shape::O => (0.5, 0.5),
        Shape::I => (-0.5, 0.5),
        _ => (0.0, 1.0),
    }
}

#[test]
fn turns_agree_with_the_arithmetic_in_floating_point() {
    let mut values: Vec<i32> = (-6..=6).collect();
    values.extend([
        i32::MIN,
        i32::MIN + 1,
        i32::MIN + 2,
        i32::MAX,
        i32::MAX - 1,
        i32::MAX - 2,
        1 << 30,
        -(1 << 30),
        (1 << 30) + 1,
        1_000_003,
        -999_983,
    ]);
    let mut cells = Vec::new();
    for &x in &values {
        for &y in &values {
            cells.push((x, y));
        }
    }
    for shape in ALL_SHAPES {
        let piece = Piece::new(shape).from(positions(&cells));
        assert_eq!(
            points(&piece.rotate_cw_copy()),
            turn_in_floating_point(&cells, pivot_of(shape), true)
        );
        assert_eq!(
            points(&piece.rotate_ccw_copy()),
            turn_in_floating_point(&cells, pivot_of(shape), false)
        );
    }
}

#[test]
fn every_orientation_agrees_with_the_arithmetic_in_floating_point() {
    for shape in ALL_SHAPES {
        let mut piece = Piece::new(shape);
        for _ in 0..4 {
            let cells = points(&piece);
            let cw = piece.rotate_cw_copy();
            assert_eq!(points(&cw), turn_in_floating_point(&cells, pivot_of(shape), true));
            assert_eq!(
                points(&piece.rotate_ccw_copy()),
                turn_in_floating_point(&cells, pivot_of(shape), false)
            );
            piece = cw;
        }
    }
}
