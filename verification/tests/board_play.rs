use quads::board::cell::{Cell, State};
use quads::board::cursor::piece::{Piece, Shape};
use quads::board::cursor::Cursor;
use quads::board::grid::{
    contains_any_stack_cell, get_points, increment_ys, is_a_full_row, is_not_a_full_row,
    set_state,
};
use quads::board::position::Position;
use quads::board::{calc_new_cursor_pos_and_orientation, Board};
use quads::tetromino_move::TetrominoMove;
use quads::user_move::UserMove;

const LEFT: TetrominoMove = TetrominoMove::UM(UserMove::Left);
const RIGHT: TetrominoMove = TetrominoMove::UM(UserMove::Right);
const SOFT: TetrominoMove = TetrominoMove::UM(UserMove::SoftDown);
const HARD: TetrominoMove = TetrominoMove::UM(UserMove::HardDown);
const CW: TetrominoMove = TetrominoMove::UM(UserMove::RotateCW);
const CCW: TetrominoMove = TetrominoMove::UM(UserMove::RotateCCW);

const ALL_SHAPES: [Shape; 7] =
    [Shape::O, Shape::I, Shape::T, Shape::S, Shape::Z, Shape::J, Shape::L];

/// The visible rows as text: `.` empty, `*` cursor, `x` stack.
fn picture(rows: &[Vec<Cell>]) -> Vec<String> {
    rows.iter()
        .map(|row| {
            row.iter()
                .map(|cell| match cell.state {
                    State::Empty => '.',
                    State::Cursor => '*',
                    State::Stack => 'x',
                })
                .collect()
        })
        .collect()
}

fn visible(board: &Board) -> Vec<String> {
    picture(board.visible_rows())
}

fn cells(positions: &[Position]) -> Vec<(i32, i32)> {
    positions.iter().map(|p| (p.x, p.y)).collect()
}

fn local(piece: &Piece) -> Vec<(i32, i32)> {
    cells(piece.get_local_points())
}

/// Everything of the board that can be seen from outside.
fn seen(board: &Board) -> (Vec<String>, Vec<String>, Vec<(i32, i32)>, Vec<(i32, i32)>, i32, i32, bool)
{
    (
        visible(board),
        picture(board.visible_rows_just_before_removal_of_full_rows()),
        cells(&board.ghost_cursor_positions()),
        local(board.next_piece()),
        board.score(),
        board.high_score(),
        board.row_removal_animation_is_pending(),
    )
}

fn times(board: &mut Board, tetromino_move: TetrominoMove, count: usize) {
    for _ in 0..count {
        assert_eq!(board.update_with(tetromino_move, Shape::O), (false, 0));
    }
}

/// Drops the active piece `shift` columns to the right of where it is
/// spawned (to the left if negative), and queues `refill`.
fn drop_at(board: &mut Board, shift: i32, refill: Shape) -> (bool, usize) {
    let sideways = if shift < 0 { LEFT } else { RIGHT };
    times(board, sideways, shift.unsigned_abs() as usize);
    board.update_with(HARD, refill)
}

#[test]
fn a_new_board_has_ten_columns_and_twenty_visible_rows_below_four_hidden_ones() {
    let board = Board::with_shapes(Shape::O, Shape::I, 0);
    assert_eq!(board.num_cols(), 10);
    assert_eq!(board.num_hidden_rows(), 4);
    assert_eq!(board.visible_rows().len(), 20);
    assert_eq!(board.visible_rows_just_before_removal_of_full_rows().len(), 20);
    assert!(board.visible_rows().iter().all(|row| row.len() == 10));
    assert_eq!(board.score(), 0);
    assert_eq!(board.high_score(), 0);
    assert!(!board.row_removal_animation_is_pending());
}

#[test]
fn a_new_board_shows_nothing_and_queues_the_second_shape() {
    let board = Board::with_shapes(Shape::O, Shape::I, 0);
    // The piece stands in the hidden rows.
    assert_eq!(visible(&board), vec![".........."; 20]);
    assert_eq!(local(board.next_piece()), local(&Piece::new(Shape::I)));
}

#[test]
fn a_new_board_keeps_the_high_score_it_is_told() {
    assert_eq!(Board::with_shapes(Shape::O, Shape::I, 4321).high_score(), 4321);
    assert_eq!(Board::with_shapes(Shape::O, Shape::I, i32::MAX).high_score(), i32::MAX);
}

#[test]
fn a_negative_high_score_counts_as_none() {
    let board = Board::with_shapes(Shape::O, Shape::I, -5);
    assert_eq!(board.high_score(), 0);
    assert_eq!(board.score(), 0);
}

#[test]
fn a_seeded_board_starts_like_any_other() {
    let board = Board::new(7, 250);
    assert_eq!(board.num_cols(), 10);
    assert_eq!(board.visible_rows().len(), 20);
    assert_eq!(visible(&board), vec![".........."; 20]);
    assert_eq!(board.score(), 0);
    assert_eq!(board.high_score(), 250);
    let next = local(board.next_piece());
    assert!(ALL_SHAPES.iter().any(|&shape| local(&Piece::new(shape)) == next));
    let ghost = cells(&board.ghost_cursor_positions());
    assert_eq!(ghost.len(), 4);
    assert_eq!(ghost.iter().map(|c| c.1).max(), Some(23));
}

#[test]
fn the_ghost_of_a_new_o_lies_on_the_floor() {
    let board = Board::with_shapes(Shape::O, Shape::I, 0);
    assert_eq!(cells(&board.ghost_cursor_positions()), vec![(4, 22), (4, 23), (5, 22), (5, 23)]);
}

#[test]
fn hard_drop_locks_an_o_on_the_floor_in_the_same_update() {
    let mut board = Board::with_shapes(Shape::O, Shape::T, 0);
    assert_eq!(board.update_with(HARD, Shape::L), (false, 0));
    let mut expected = vec!["..........".to_string(); 20];
    expected[18] = "....xx....".to_string();
    expected[19] = "....xx....".to_string();
    assert_eq!(visible(&board), expected);
    assert_eq!(board.score(), 12);
    assert_eq!(board.high_score(), 12);
    // The queued piece is now active and the refill is queued.
    assert_eq!(local(board.next_piece()), local(&Piece::new(Shape::L)));
    // T stands on the floor beside nothing: its ghost rests on the O.
    assert_eq!(cells(&board.ghost_cursor_positions()), vec![(4, 21), (3, 21), (5, 21), (4, 20)]);
}

#[test]
fn hard_drop_leaves_the_grid_that_soft_drops_lead_to() {
    let mut dropped = Board::with_shapes(Shape::O, Shape::T, 0);
    assert_eq!(dropped.update_with(HARD, Shape::L), (false, 0));

    let mut lowered = Board::with_shapes(Shape::O, Shape::T, 0);
    // From row 0 the anchor goes down to row 22: 22 soft drops that fit.
    for step in 1..=22 {
        assert_eq!(lowered.update_with(SOFT, Shape::L), (false, 0));
        assert_eq!(lowered.score(), step);
    }
    // The next one does not fit and docks the piece, without a bonus.
    assert_eq!(lowered.update_with(SOFT, Shape::L), (false, 0));
    assert_eq!(lowered.score(), 22);

    assert_eq!(visible(&lowered), visible(&dropped));
    assert_eq!(local(lowered.next_piece()), local(dropped.next_piece()));
    assert_eq!(
        cells(&lowered.ghost_cursor_positions()),
        cells(&dropped.ghost_cursor_positions())
    );
    assert_eq!(dropped.score(), 12);
}

#[test]
fn a_piece_left_to_fall_settles_without_points() {
    let mut board = Board::with_shapes(Shape::T, Shape::S, 0);
    let mut updates = 0;
    loop {
        let before = visible(&board);
        let ghost = cells(&board.ghost_cursor_positions());
        let report = board.update_with(TetrominoMove::AutoDown, Shape::Z);
        updates += 1;
        assert_eq!(report, (false, 0));
        assert_eq!(board.score(), 0);
        assert_eq!(board.high_score(), 0);
        assert!(!board.row_removal_animation_is_pending());
        if local(board.next_piece()) == local(&Piece::new(Shape::Z)) {
            // Docked: the piece lies where its ghost was.
            let after = board.visible_rows();
            for &(x, y) in &ghost {
                assert_eq!(after[y as usize - 4][x as usize].state, State::Stack);
            }
            let stack_cells: usize = after
                .iter()
                .map(|row| row.iter().filter(|cell| cell.state == State::Stack).count())
                .sum();
            assert_eq!(stack_cells, 4);
            let _ = before;
            break;
        }
    }
    // The anchor of T goes from row 0 to row 22, then the piece is docked.
    assert_eq!(updates, 23);
    let mut expected = vec!["..........".to_string(); 20];
    expected[18] = "....x.....".to_string();
    expected[19] = "...xxx....".to_string();
    assert_eq!(visible(&board), expected);
}

#[test]
fn a_move_to_the_side_that_does_not_fit_changes_nothing() {
    let mut board = Board::with_shapes(Shape::O, Shape::T, 40);
    times(&mut board, SOFT, 6);
    times(&mut board, LEFT, 4);
    let before = seen(&board);
    assert_eq!(board.update_with(LEFT, Shape::I), (false, 0));
    assert_eq!(seen(&board), before);

    times(&mut board, RIGHT, 8);
    let before = seen(&board);
    assert_eq!(board.update_with(RIGHT, Shape::I), (false, 0));
    assert_eq!(seen(&board), before);
}

#[test]
fn a_turn_that_does_not_fit_changes_nothing() {
    // I lies flat in the top row: upright it would reach above the board.
    let mut board = Board::with_shapes(Shape::I, Shape::T, 0);
    let before = seen(&board);
    assert_eq!(board.update_with(CW, Shape::O), (false, 0));
    assert_eq!(seen(&board), before);
    assert_eq!(board.update_with(CCW, Shape::O), (false, 0));
    assert_eq!(seen(&board), before);

    // Upright at the left wall, I cannot lie down.
    times(&mut board, SOFT, 6);
    assert_eq!(board.update_with(CCW, Shape::O), (false, 0));
    times(&mut board, LEFT, 3);
    let before = seen(&board);
    assert_eq!(board.update_with(LEFT, Shape::O), (false, 0));
    assert_eq!(seen(&board), before);
    assert_eq!(board.update_with(CW, Shape::O), (false, 0));
    assert_eq!(seen(&board), before);
}

#[test]
fn a_move_into_the_stack_changes_nothing() {
    let mut board = Board::with_shapes(Shape::O, Shape::O, 0);
    // A tower of two Os at columns 0 and 1.
    assert_eq!(drop_at(&mut board, -4, Shape::O), (false, 0));
    assert_eq!(drop_at(&mut board, -4, Shape::O), (false, 0));
    // The third O comes down beside the tower and is pushed against it.
    times(&mut board, LEFT, 2);
    times(&mut board, SOFT, 21);
    let before = seen(&board);
    assert_eq!(board.update_with(LEFT, Shape::O), (false, 0));
    assert_eq!(seen(&board), before);
    let mut expected = vec!["..........".to_string(); 20];
    expected[16] = "xx........".to_string();
    expected[17] = "xx**......".to_string();
    expected[18] = "xx**......".to_string();
    expected[19] = "xx........".to_string();
    assert_eq!(visible(&board), expected);
}

#[test]
fn moves_that_fit_move_the_piece() {
    let mut board = Board::with_shapes(Shape::T, Shape::O, 0);
    times(&mut board, SOFT, 5);
    let mut expected = vec!["..........".to_string(); 20];
    expected[1] = "....*.....".to_string();
    expected[2] = "...***....".to_string();
    assert_eq!(visible(&board), expected);
    assert_eq!(board.score(), 5);

    times(&mut board, RIGHT, 1);
    expected[1] = ".....*....".to_string();
    expected[2] = "....***...".to_string();
    assert_eq!(visible(&board), expected);

    times(&mut board, CW, 1);
    expected[1] = ".....*....".to_string();
    expected[2] = ".....**...".to_string();
    expected[3] = ".....*....".to_string();
    assert_eq!(visible(&board), expected);

    times(&mut board, LEFT, 2);
    expected[1] = "...*......".to_string();
    expected[2] = "...**.....".to_string();
    expected[3] = "...*......".to_string();
    assert_eq!(visible(&board), expected);

    times(&mut board, CCW, 1);
    times(&mut board, TetrominoMove::AutoDown, 1);
    expected[1] = "..........".to_string();
    expected[2] = "...*......".to_string();
    expected[3] = "..***.....".to_string();
    assert_eq!(visible(&board), expected);
    // Only the soft drops have earned points.
    assert_eq!(board.score(), 5);
    assert_eq!(board.high_score(), 5);
}

#[test]
fn one_full_row_is_worth_a_hundred() {
    let mut board = Board::with_shapes(Shape::I, Shape::I, 0);
    // I covers columns 2 to 5 where it is spawned.
    assert_eq!(drop_at(&mut board, -2, Shape::O), (false, 0));
    assert_eq!(drop_at(&mut board, 2, Shape::T), (false, 0));
    assert_eq!(board.score(), 24);
    assert!(!board.row_removal_animation_is_pending());
    // O closes the bottom row at columns 8 and 9.
    assert_eq!(drop_at(&mut board, 4, Shape::T), (false, 1));
    assert_eq!(board.score(), 36 + 100);
    assert_eq!(board.high_score(), 136);
    assert!(board.row_removal_animation_is_pending());

    let mut expected = vec!["..........".to_string(); 20];
    expected[19] = "........xx".to_string();
    assert_eq!(visible(&board), expected);
    let mut snapshot = vec!["..........".to_string(); 20];
    snapshot[18] = "........xx".to_string();
    snapshot[19] = "xxxxxxxxxx".to_string();
    assert_eq!(picture(board.visible_rows_just_before_removal_of_full_rows()), snapshot);
    assert_eq!(board.visible_rows().len(), 20);

    board.set_row_removal_animation_is_pending_to_false();
    assert!(!board.row_removal_animation_is_pending());
    assert_eq!(visible(&board), expected);
    assert_eq!(board.score(), 136);
}

#[test]
fn two_full_rows_are_worth_three_hundred() {
    let mut board = Board::with_shapes(Shape::O, Shape::O, 0);
    for shift in [-4, -2, 0, 2] {
        assert_eq!(drop_at(&mut board, shift, Shape::O), (false, 0));
    }
    assert_eq!(drop_at(&mut board, 4, Shape::O), (false, 2));
    assert_eq!(board.score(), 5 * 12 + 300);
    assert_eq!(visible(&board), vec![".........."; 20]);
    assert!(board.row_removal_animation_is_pending());
}

#[test]
fn three_full_rows_are_worth_five_hundred() {
    let mut board = Board::with_shapes(Shape::I, Shape::I, 0);
    // Three rows of stack in columns 0 to 7.
    for _ in 0..3 {
        assert_eq!(drop_at(&mut board, -2, Shape::I), (false, 0));
        assert_eq!(drop_at(&mut board, 2, Shape::I), (false, 0));
    }
    // An upright I in column 8 stands one row higher than the stack.
    times(&mut board, SOFT, 1);
    times(&mut board, CW, 1);
    assert_eq!(drop_at(&mut board, 4, Shape::I), (false, 0));
    assert!(!board.row_removal_animation_is_pending());
    // Another one in column 9 closes the three rows below.
    times(&mut board, SOFT, 1);
    times(&mut board, CW, 1);
    assert_eq!(drop_at(&mut board, 5, Shape::I), (false, 3));
    assert_eq!(board.score(), 8 * 12 + 2 + 500);
    assert!(board.row_removal_animation_is_pending());
    let mut expected = vec!["..........".to_string(); 20];
    expected[19] = "........xx".to_string();
    assert_eq!(visible(&board), expected);
}

#[test]
fn four_full_rows_are_worth_eight_hundred() {
    let mut board = Board::with_shapes(Shape::O, Shape::O, 1000);
    // Four rows of stack in columns 0 to 7, the last O queues an I, the I
    // queues another I.
    for round in 0..2 {
        for shift in [-4, -2, 0, 2] {
            let refill = if round == 1 && shift >= 0 { Shape::I } else { Shape::O };
            assert_eq!(drop_at(&mut board, shift, refill), (false, 0));
        }
    }
    assert_eq!(board.score(), 8 * 12);
    // The first I stands upright in column 8.
    times(&mut board, SOFT, 1);
    times(&mut board, CW, 1);
    assert_eq!(drop_at(&mut board, 4, Shape::T), (false, 0));
    // The second one in column 9 closes four rows at once.
    times(&mut board, SOFT, 1);
    times(&mut board, CW, 1);
    assert_eq!(drop_at(&mut board, 5, Shape::T), (false, 4));
    assert_eq!(board.score(), 10 * 12 + 2 + 800);
    assert_eq!(board.high_score(), 1000);
    assert_eq!(visible(&board), vec![".........."; 20]);
    assert_eq!(board.visible_rows().len(), 20);
    let mut snapshot = vec!["..........".to_string(); 20];
    for row in 16..20 {
        snapshot[row] = "xxxxxxxxxx".to_string();
    }
    assert_eq!(picture(board.visible_rows_just_before_removal_of_full_rows()), snapshot);
}

#[test]
fn rows_above_a_cleared_row_come_down() {
    let mut board = Board::with_shapes(Shape::I, Shape::I, 0);
    assert_eq!(drop_at(&mut board, -2, Shape::T), (false, 0));
    assert_eq!(drop_at(&mut board, 2, Shape::O), (false, 0));
    // T lies on the first I.
    assert_eq!(drop_at(&mut board, -3, Shape::O), (false, 0));
    let mut expected = vec!["..........".to_string(); 20];
    expected[17] = ".x........".to_string();
    expected[18] = "xxx.......".to_string();
    expected[19] = "xxxxxxxx..".to_string();
    assert_eq!(visible(&board), expected);
    assert_eq!(drop_at(&mut board, 4, Shape::O), (false, 1));
    let mut expected = vec!["..........".to_string(); 20];
    expected[18] = ".x........".to_string();
    expected[19] = "xxx.....xx".to_string();
    assert_eq!(visible(&board), expected);
}

#[test]
fn the_board_is_topped_out_when_the_stack_reaches_the_visible_height() {
    let mut board = Board::with_shapes(Shape::O, Shape::O, 0);
    // Each O adds two rows to the tower; nine of them make eighteen.
    for _ in 0..9 {
        assert_eq!(board.update_with(HARD, Shape::O), (false, 0));
    }
    assert_eq!(board.visible_rows().len(), 20);
    // The tenth brings the stack to twenty rows, the height of the field.
    assert_eq!(board.update_with(HARD, Shape::O), (true, 0));
    assert_eq!(board.score(), 120);
    // A new piece is spawned all the same.
    assert_eq!(cells(&board.ghost_cursor_positions()), vec![(4, 2), (4, 3), (5, 2), (5, 3)]);
    let mut expected = vec!["....xx....".to_string(); 20];
    expected.truncate(20);
    assert_eq!(visible(&board), expected);
}

#[test]
fn the_board_stays_topped_out_while_the_stack_stands_in_the_hidden_rows() {
    let mut board = Board::with_shapes(Shape::O, Shape::O, 0);
    for _ in 0..10 {
        let _ = board.update_with(HARD, Shape::O);
    }
    assert_eq!(board.update_with(HARD, Shape::O), (true, 0));
    // The twelfth O is spawned on the stack: it takes over the cells it
    // stands on and is docked where it is.
    assert_eq!(board.update_with(TetrominoMove::AutoDown, Shape::O), (true, 0));
    assert_eq!(board.num_hidden_rows(), 4);
    assert_eq!(board.visible_rows().len(), 20);
}

#[test]
fn the_queue_hands_out_the_shapes_in_the_order_they_came() {
    let mut board = Board::with_shapes(Shape::O, Shape::I, 0);
    let refills = [Shape::T, Shape::S, Shape::Z, Shape::J, Shape::L];
    let mut upcoming = Shape::I;
    for refill in refills {
        assert_eq!(local(board.next_piece()), local(&Piece::new(upcoming)));
        let _ = board.update_with(HARD, refill);
        // The queue is as long as before: its one piece is the refill.
        assert_eq!(local(board.next_piece()), local(&Piece::new(refill)));
        upcoming = refill;
    }
}

#[test]
fn an_update_with_a_shape_of_its_own_choice_plays_by_the_same_rules() {
    let mut board = Board::new(99, 0);
    times(&mut board, SOFT, 1);
    assert_eq!(board.score(), 1);
    let ghost = cells(&board.ghost_cursor_positions());
    assert_eq!(board.update(HARD), (false, 0));
    assert_eq!(board.score(), 13);
    for &(x, y) in &ghost {
        assert_eq!(board.visible_rows()[y as usize - 4][x as usize].state, State::Stack);
    }
    let next = local(board.next_piece());
    assert!(ALL_SHAPES.iter().any(|&shape| local(&Piece::new(shape)) == next));
    assert_eq!(board.update(LEFT), (false, 0));
    assert_eq!(board.update(TetrominoMove::AutoDown), (false, 0));
    assert_eq!(board.score(), 13);
}

#[test]
fn the_high_score_follows_the_score_once_it_is_passed() {
    let mut board = Board::with_shapes(Shape::O, Shape::O, 20);
    let _ = board.update_with(HARD, Shape::O);
    assert_eq!((board.score(), board.high_score()), (12, 20));
    let _ = board.update_with(HARD, Shape::O);
    assert_eq!((board.score(), board.high_score()), (24, 24));
    times(&mut board, SOFT, 3);
    assert_eq!((board.score(), board.high_score()), (27, 27));
}

#[test]
fn the_fit_test_is_bounds_and_stack() {
    let mut board = Board::with_shapes(Shape::O, Shape::O, 0);
    let _ = board.update_with(HARD, Shape::O);
    let candidates = [
        Cursor::from_shape(Shape::O, Position { x: 4, y: 0 }),
        Cursor::from_shape(Shape::O, Position { x: 4, y: 20 }),
        Cursor::from_shape(Shape::O, Position { x: 4, y: 21 }),
        Cursor::from_shape(Shape::O, Position { x: 3, y: 22 }),
        Cursor::from_shape(Shape::O, Position { x: 2, y: 22 }),
        Cursor::from_shape(Shape::O, Position { x: 6, y: 22 }),
        Cursor::from_shape(Shape::O, Position { x: 8, y: 22 }),
        Cursor::from_shape(Shape::O, Position { x: 9, y: 22 }),
        Cursor::from_shape(Shape::O, Position { x: -1, y: 5 }),
        Cursor::from_shape(Shape::O, Position { x: 0, y: 23 }),
        Cursor::from_shape(Shape::O, Position { x: 0, y: -1 }),
        Cursor::from_shape(Shape::I, Position { x: 2, y: 23 }),
        Cursor::from_shape(Shape::I, Position { x: 1, y: 23 }),
        Cursor::from_shape(Shape::I, Position { x: 5, y: 23 }),
        Cursor::from_shape(Shape::I, Position { x: 8, y: 23 }),
        Cursor::from_shape(Shape::I, Position { x: 9, y: 23 }),
    ];
    let expected = [
        true, true, false, false, true, true, true, false, false, false, false, true, false,
        false, true, false,
    ];
    for (cursor, fits) in candidates.iter().zip(expected) {
        let positions = cursor.get_point_positions();
        let out = board.any_is_out_of_bounds(&positions);
        let by_parts = !out && board.all_not_occupied_by_stack(&positions);
        assert_eq!(board.fits_on_board(cursor), by_parts);
        assert_eq!(board.cursor_cells_fit_on_board(&positions), by_parts);
        assert_eq!(board.fits_on_board(cursor), fits);
    }
}

#[test]
fn positions_off_the_board_are_out_of_bounds() {
    let board = Board::with_shapes(Shape::O, Shape::O, 0);
    assert!(!board.is_out_of_bounds(Position { x: 0, y: 0 }));
    assert!(!board.is_out_of_bounds(Position { x: 9, y: 23 }));
    assert!(board.is_out_of_bounds(Position { x: 10, y: 0 }));
    assert!(board.is_out_of_bounds(Position { x: 0, y: 24 }));
    assert!(board.is_out_of_bounds(Position { x: -1, y: 0 }));
    assert!(board.is_out_of_bounds(Position { x: 0, y: -1 }));
    assert!(board.is_out_of_bounds(Position { x: i32::MIN, y: i32::MAX }));
    assert!(!board.any_is_out_of_bounds(&[]));
    assert!(board.all_not_occupied_by_stack(&[]));
}

#[test]
fn the_candidate_of_each_move() {
    let cursor = Cursor::from_shape(Shape::T, Position { x: 4, y: 6 });
    let at = |tetromino_move| {
        let candidate = calc_new_cursor_pos_and_orientation(&cursor, tetromino_move, 17);
        (candidate.position.x, candidate.position.y, local(&candidate.piece))
    };
    let flat = local(&cursor.piece);
    assert_eq!(at(TetrominoMove::AutoDown), (4, 7, flat.clone()));
    assert_eq!(at(SOFT), (4, 7, flat.clone()));
    assert_eq!(at(HARD), (4, 17, flat.clone()));
    assert_eq!(at(LEFT), (3, 6, flat.clone()));
    assert_eq!(at(RIGHT), (5, 6, flat.clone()));
    assert_eq!(at(CW), (4, 6, local(&cursor.piece.rotate_cw_copy())));
    assert_eq!(at(CCW), (4, 6, local(&cursor.piece.rotate_ccw_copy())));
}

#[test]
fn the_table_of_points() {
    assert_eq!(get_points(0), 0);
    assert_eq!(get_points(1), 100);
    assert_eq!(get_points(2), 300);
    assert_eq!(get_points(3), 500);
    assert_eq!(get_points(4), 800);
    assert_eq!(get_points(5), 0);
    assert_eq!(get_points(usize::MAX), 0);
}

#[test]
fn rows_are_full_when_every_cell_is_stack() {
    let stack = Cell { state: State::Stack };
    let cursor = Cell { state: State::Cursor };
    let empty = Cell::new();
    assert_eq!(empty.state, State::Empty);

    let full = vec![stack; 10];
    assert!(is_a_full_row(&full));
    assert!(!is_not_a_full_row(&full));
    assert!(contains_any_stack_cell(&full));

    let mut nearly = vec![stack; 10];
    nearly[9] = empty;
    assert!(!is_a_full_row(&nearly));
    assert!(is_not_a_full_row(&nearly));
    assert!(contains_any_stack_cell(&nearly));

    let mut with_cursor = vec![stack; 10];
    with_cursor[0] = cursor;
    assert!(!is_a_full_row(&with_cursor));

    let mut one = vec![empty; 10];
    assert!(!contains_any_stack_cell(&one));
    assert!(is_not_a_full_row(&one));
    one[3] = cursor;
    assert!(!contains_any_stack_cell(&one));
    one[7] = stack;
    assert!(contains_any_stack_cell(&one));
}

#[test]
fn set_state_sets_the_state() {
    let mut cell = Cell::new();
    set_state(&mut cell, State::Stack);
    assert_eq!(cell.state, State::Stack);
    set_state(&mut cell, State::Cursor);
    assert_eq!(cell.state, State::Cursor);
}

#[test]
fn increment_ys_moves_every_position_one_row_down() {
    let mut positions = vec![Position { x: 3, y: -1 }, Position { x: -2, y: 8 }];
    increment_ys(&mut positions);
    assert_eq!(positions, vec![Position { x: 3, y: 0 }, Position { x: -2, y: 9 }]);
}

#[test]
fn boards_of_the_same_seed_draw_the_same_shapes() {
    for seed in [0, 1, 42, u64::MAX] {
        let mut first = Board::new(seed, 0);
        let mut seen_first = vec![seen(&first)];
        for _ in 0..6 {
            let _ = first.update(HARD);
            seen_first.push(seen(&first));
        }
        let mut second = Board::new(seed, 0);
        let mut seen_second = vec![seen(&second)];
        for _ in 0..6 {
            let _ = second.update(HARD);
            seen_second.push(seen(&second));
        }
        assert_eq!(seen_first, seen_second);
    }
}

#[test]
fn the_shapes_drawn_are_not_all_the_same() {
    let mut board = Board::new(2024, 0);
    let mut shapes = vec![local(board.next_piece())];
    for _ in 0..40 {
        let _ = board.update(TetrominoMove::UM(UserMove::Left));
        let _ = board.update(HARD);
        shapes.push(local(board.next_piece()));
        if board.visible_rows()[0].iter().any(|cell| cell.state == State::Stack) {
            board = Board::with_shapes(Shape::O, Shape::O, 0);
        }
    }
    shapes.sort();
    shapes.dedup();
    assert!(shapes.len() > 1);
    for cells in &shapes {
        assert!(ALL_SHAPES.iter().any(|&shape| &local(&Piece::new(shape)) == cells));
    }
}
