use quads::board::cell::{Cell, State};
use quads::board::cursor::piece::{Piece, Shape};
use quads::board::Board;
use quads::display::{
    cell_to_cell_display_state, enlarge_middle_gap, get_board_state, get_indices_of_full_rows,
    is_full, make_next_frame_of_row_removal_animation, new_animation_row, num_frames_to_animate,
    position_of_first_not_being_removed, row_to_display_row, rows_to_display_rows,
    CellDisplayState, RowRemovalAnimation,
};
use quads::tetromino_move::TetrominoMove;
use quads::user_move::UserMove;

const E: CellDisplayState = CellDisplayState::Empty;
const C: CellDisplayState = CellDisplayState::Cursor;
const S: CellDisplayState = CellDisplayState::Stack;
const B: CellDisplayState = CellDisplayState::BeingRemoved;

fn hard_drop(board: &mut Board, shift: i32, refill: Shape) -> (bool, usize) {
    let sideways = if shift < 0 { UserMove::Left } else { UserMove::Right };
    for _ in 0..shift.unsigned_abs() {
        let _ = board.update_with(TetrominoMove::UM(sideways), Shape::O);
    }
    board.update_with(TetrominoMove::UM(UserMove::HardDown), refill)
}

/// A board on which the two bottom rows have just been taken out.
fn board_after_a_clear() -> Board {
    let mut board = Board::with_shapes(Shape::O, Shape::O, 0);
    for shift in [-4, -2, 0, 2] {
        assert_eq!(hard_drop(&mut board, shift, Shape::O), (false, 0));
    }
    assert_eq!(hard_drop(&mut board, 4, Shape::T), (false, 2));
    board
}

#[test]
fn every_state_is_shown_as_itself() {
    assert_eq!(cell_to_cell_display_state(Cell { state: State::Empty }), E);
    assert_eq!(cell_to_cell_display_state(Cell { state: State::Cursor }), C);
    assert_eq!(cell_to_cell_display_state(Cell { state: State::Stack }), S);
}

#[test]
fn rows_are_shown_cell_by_cell() {
    let row = vec![
        Cell { state: State::Stack },
        Cell { state: State::Empty },
        Cell { state: State::Cursor },
    ];
    assert_eq!(row_to_display_row(&row), vec![S, E, C]);
    assert_eq!(row_to_display_row(&Vec::new()), Vec::new());
    let rows = vec![row.clone(), vec![Cell { state: State::Stack }], Vec::new()];
    assert_eq!(rows_to_display_rows(&rows), vec![vec![S, E, C], vec![S], vec![]]);
}

#[test]
fn a_row_is_shown_full_when_every_cell_is_shown_as_stack() {
    assert!(is_full(&vec![S; 10]));
    assert!(!is_full(&vec![S, S, E, S]));
    assert!(!is_full(&vec![S, S, B, S]));
    assert!(!is_full(&vec![C]));
    assert!(is_full(&vec![]));
}

#[test]
fn the_indices_of_full_rows_rise() {
    let rows = vec![vec![S, S], vec![S, E], vec![S, S], vec![E, E], vec![B, B], vec![S, S]];
    assert_eq!(get_indices_of_full_rows(&rows), vec![0, 2, 5]);
    assert_eq!(get_indices_of_full_rows(&rows[1..2]), Vec::<usize>::new());
    assert_eq!(get_indices_of_full_rows(&[]), Vec::<usize>::new());
}

#[test]
fn the_first_open_cell_is_found() {
    assert_eq!(position_of_first_not_being_removed(&vec![B, B, E, B, E]), Some(2));
    assert_eq!(position_of_first_not_being_removed(&vec![S, B]), Some(0));
    assert_eq!(position_of_first_not_being_removed(&vec![B, B]), None);
    assert_eq!(position_of_first_not_being_removed(&vec![]), None);
}

#[test]
fn the_gap_opens_from_the_middle_of_a_row_of_ten() {
    let mut row = new_animation_row(10);
    assert_eq!(row, vec![B; 10]);
    enlarge_middle_gap(&mut row);
    assert_eq!(row, vec![B, B, B, B, E, E, B, B, B, B]);
    enlarge_middle_gap(&mut row);
    assert_eq!(row, vec![B, B, B, E, E, E, E, B, B, B]);
    enlarge_middle_gap(&mut row);
    assert_eq!(row, vec![B, B, E, E, E, E, E, E, B, B]);
    enlarge_middle_gap(&mut row);
    assert_eq!(row, vec![B, E, E, E, E, E, E, E, E, B]);
    enlarge_middle_gap(&mut row);
    assert_eq!(row, vec![E; 10]);
    // A row that is all gap stays as it is.
    enlarge_middle_gap(&mut row);
    assert_eq!(row, vec![E; 10]);
}

#[test]
fn the_gap_opens_from_the_middle_of_a_row_of_odd_length() {
    let mut row = new_animation_row(5);
    enlarge_middle_gap(&mut row);
    assert_eq!(row, vec![B, B, E, B, B]);
    enlarge_middle_gap(&mut row);
    assert_eq!(row, vec![B, E, E, E, B]);
    let mut one = new_animation_row(1);
    enlarge_middle_gap(&mut one);
    assert_eq!(one, vec![E]);
}

#[test]
fn a_frame_gives_the_rows_that_go_the_look_of_the_animation_row() {
    let mut rows = vec![vec![E; 4], vec![S; 4], vec![S, E, E, S], vec![S; 4]];
    let mut animation_row = new_animation_row(4);
    make_next_frame_of_row_removal_animation(&mut rows, &vec![1, 3], &mut animation_row);
    assert_eq!(animation_row, vec![B, E, E, B]);
    assert_eq!(rows, vec![vec![E; 4], vec![B, E, E, B], vec![S, E, E, S], vec![B, E, E, B]]);
    make_next_frame_of_row_removal_animation(&mut rows, &vec![1, 3], &mut animation_row);
    assert_eq!(animation_row, vec![E; 4]);
    assert_eq!(rows, vec![vec![E; 4], vec![E; 4], vec![S, E, E, S], vec![E; 4]]);
    // No row to animate: only the animation row moves on.
    let mut other = vec![vec![S; 4]];
    let mut fresh = new_animation_row(4);
    make_next_frame_of_row_removal_animation(&mut other, &vec![], &mut fresh);
    assert_eq!(other, vec![vec![S; 4]]);
    assert_eq!(fresh, vec![B, E, E, B]);
}

#[test]
fn one_frame_for_every_two_columns() {
    assert_eq!(num_frames_to_animate(10), 5);
    assert_eq!(num_frames_to_animate(11), 5);
    assert_eq!(num_frames_to_animate(1), 0);
    assert_eq!(num_frames_to_animate(0), 0);
    assert_eq!(num_frames_to_animate(i32::MAX as usize), i32::MAX / 2);
}

#[test]
fn the_board_state_shows_the_visible_rows_and_the_snapshot() {
    let board = board_after_a_clear();
    let state = get_board_state(&board);
    assert_eq!(state.num_cols, 10);
    assert_eq!(state.num_hidden_rows, 4);
    assert_eq!(state.score, 5 * 12 + 300);
    assert_eq!(state.latest_visible_rows, vec![vec![E; 10]; 20]);
    let mut snapshot = vec![vec![E; 10]; 20];
    snapshot[18] = vec![S; 10];
    snapshot[19] = vec![S; 10];
    assert_eq!(state.visible_rows_just_before_removal_of_full_rows, snapshot);
    assert_eq!(
        state.next_piece.get_local_points(),
        Piece::new(Shape::T).get_local_points()
    );
    assert_eq!(state.ghost_cursor_positions, board.ghost_cursor_positions());
}

#[test]
fn the_board_state_shows_the_piece_once_it_is_in_sight() {
    let mut board = Board::with_shapes(Shape::O, Shape::I, 0);
    for _ in 0..4 {
        let _ = board.update_with(TetrominoMove::AutoDown, Shape::O);
    }
    let state = get_board_state(&board);
    let mut expected = vec![vec![E; 10]; 20];
    expected[0] = vec![E, E, E, E, C, C, E, E, E, E];
    expected[1] = vec![E, E, E, E, C, C, E, E, E, E];
    assert_eq!(state.latest_visible_rows, expected);
    assert_eq!(state.visible_rows_just_before_removal_of_full_rows, vec![vec![E; 10]; 20]);
}

#[test]
fn an_animation_runs_its_frames_and_ends() {
    let mut board = board_after_a_clear();
    let mut animation = RowRemovalAnimation::new();
    assert!(!animation.drawing_row_removal_animation());
    assert_eq!(animation.animation_frames_left_to_draw, 0);
    assert!(!animation.is_due(false));
    assert!(animation.is_due(board.row_removal_animation_is_pending()));

    let frames = num_frames_to_animate(board.num_cols());
    animation.initialize_row_removal_animation(get_board_state(&board), frames);
    assert!(animation.drawing_row_removal_animation());
    assert!(!animation.is_due(true));
    assert_eq!(animation.animation_frames_left_to_draw, 5);
    assert_eq!(animation.indices_of_full_rows_to_animate, vec![18, 19]);
    assert_eq!(animation.animation_row, vec![B; 10]);
    assert!(!animation.first_frame_post_animation);

    let looks = [
        vec![B, B, B, B, E, E, B, B, B, B],
        vec![B, B, B, E, E, E, E, B, B, B],
        vec![B, B, E, E, E, E, E, E, B, B],
        vec![B, E, E, E, E, E, E, E, E, B],
        vec![E; 10],
    ];
    for (frame, look) in looks.iter().enumerate() {
        animation.advance_row_removal_animation();
        assert!(animation.first_frame_post_animation);
        assert_eq!(animation.animation_frames_left_to_draw, 4 - frame as i32);
        assert_eq!(&animation.animation_row, look);
        let rows = &animation.board_state.as_ref().unwrap().visible_rows_just_before_removal_of_full_rows;
        assert_eq!(rows.len(), 20);
        assert_eq!(&rows[18], look);
        assert_eq!(&rows[19], look);
        assert_eq!(rows[17], vec![E; 10]);
        assert!(animation.drawing_row_removal_animation());
    }

    // No frame is left: the animation ends with one more pause.
    assert!(board.row_removal_animation_is_pending());
    assert!(animation.finish_row_removal_animation(&mut board));
    assert!(!board.row_removal_animation_is_pending());
    assert!(!animation.drawing_row_removal_animation());
    assert!(!animation.first_frame_post_animation);
    // The frame after that is an ordinary one.
    assert!(!animation.finish_row_removal_animation(&mut board));
    assert!(!animation.is_due(board.row_removal_animation_is_pending()));
}
