//! What holds of every board and every update, proved over the model.

use vstd::prelude::*;

use super::cell::State;
use super::cursor::piece::{
    lemma_oriented_is_compact, lemma_rotation_keeps_orientation, PieceView, RotationDir, Shape,
};
use super::cursor::CursorView;
use super::grid::{
    all_in_grid, clear_points, cleared, empty_rows, full_row_count, has_no_full_row, in_grid,
    is_rectangular, lemma_cleared_has_no_full_row, lemma_cleared_shape,
    lemma_full_rows_in_a_run, lemma_painted_shape, lemma_painting_fills_no_row, painted,
    row_has_stack, row_is_full, stack_top_from, topmost_stack_row,
};
use super::model::{spawn_anchor, BoardView, MOST_POINTS_PER_UPDATE};
use super::position::Point;
use crate::tetromino_move::TetrominoMove;
use crate::user_move::UserMove;

verus! {

// Where the active piece stands.

/// A cursor that fits covers cells of the grid only.
pub proof fn lemma_fitting_cursor_is_in_grid(board: BoardView, cursor: CursorView)
    requires
        is_rectangular(board.grid, board.cols),
        board.fits(cursor),
    ensures
        all_in_grid(board.grid, cursor.cells()),
{
    let cells = cursor.cells();
    assert forall|i: int| 0 <= i < cells.len() implies in_grid(board.grid, #[trigger] cells[i]) by {
        assert(board.in_bounds(cells[i]));
    }
}

/// A new piece covers cells of the two top rows, well inside the board.
pub proof fn lemma_spawn_is_in_grid(board: BoardView, shape: Shape)
    requires
        5 <= board.cols,
        2 <= board.grid.len(),
        is_rectangular(board.grid, board.cols),
    ensures
        CursorView::spawn(shape, spawn_anchor(board.cols)).piece.is_oriented(),
        all_in_grid(board.grid, CursorView::spawn(shape, spawn_anchor(board.cols)).cells()),
{
    let cursor = CursorView::spawn(shape, spawn_anchor(board.cols));
    let cells = cursor.cells();
    assert(cursor.piece == PieceView::quarter_turns(shape, 0));
    assert forall|i: int| 0 <= i < cells.len() implies in_grid(board.grid, #[trigger] cells[i]) by {
        let p = shape.initial_points()[i];
        assert(-2 <= p.x <= 1 && 0 <= p.y <= 1);
        assert(cells[i] == p.shifted((board.cols - 1) / 2, 0));
        assert(board.grid[cells[i].y].len() == board.cols);
    }
}

/// On a sound board the active piece fits where it stands: its cells are
/// cells of the board, and none of them is a cell of the stack.
pub proof fn lemma_active_cursor_fits(board: BoardView)
    requires
        board.valid(),
    ensures
        board.fits(board.cursor),
{
    let cells = board.cursor.cells();
    assert forall|i: int| 0 <= i < cells.len() implies board.in_bounds(#[trigger] cells[i])
        && board.grid[cells[i].y][cells[i].x] != State::Stack by {
        assert(in_grid(board.grid, cells[i]));
        assert(board.grid[cells[i].y].len() == board.cols);
        assert(cells.contains(Point { x: cells[i].x, y: cells[i].y }));
        assert(board.grid[cells[i].y][cells[i].x] == State::Cursor);
    }
}

/// On a sound board the anchor of the active piece is on the board or
/// within two cells of it.
pub proof fn lemma_cursor_is_near(board: BoardView)
    requires
        board.valid(),
    ensures
        -2 <= board.cursor.anchor.x <= board.cols + 1,
        -2 <= board.cursor.anchor.y <= board.grid.len(),
{
    lemma_oriented_is_compact(board.cursor.piece);
    let cells = board.cursor.cells();
    assert(in_grid(board.grid, cells[0]));
    assert(board.grid[cells[0].y].len() == board.cols);
    assert(board.cursor.piece.shape.sweeps(board.cursor.piece.points[0]));
}

/// On a sound board every cell of the active piece has coordinates that a
/// `Position` can hold, as long as the board itself is not larger than
/// such coordinates can tell.
pub proof fn lemma_cursor_cells_are_representable(board: BoardView)
    requires
        board.valid(),
        board.cols <= i32::MAX,
        board.grid.len() <= i32::MAX,
    ensures
        board.cursor.cells_representable(),
{
    let cells = board.cursor.cells();
    assert forall|i: int| 0 <= i < board.cursor.piece.points.len() implies (
    #[trigger] board.cursor.piece.points[i]).shifted(
        board.cursor.anchor.x,
        board.cursor.anchor.y,
    ).representable() by {
        assert(in_grid(board.grid, cells[i]));
        assert(board.grid[cells[i].y].len() == board.cols);
    }
}

/// Where a move would put the piece, the piece is still one of the four
/// silhouettes of its shape.
pub proof fn lemma_candidate_is_oriented(board: BoardView, tetromino_move: TetrominoMove)
    requires
        board.cursor.piece.is_oriented(),
    ensures
        board.candidate(tetromino_move).piece.is_oriented(),
{
    lemma_rotation_keeps_orientation(board.cursor.piece, RotationDir::Clockwise);
    lemma_rotation_keeps_orientation(board.cursor.piece, RotationDir::Counterclockwise);
}

/// Where a move would put the piece, each of its cells is within five
/// cells of the board.
pub proof fn lemma_candidate_is_near(board: BoardView, tetromino_move: TetrominoMove)
    requires
        board.valid(),
        board.cols + 4 <= i32::MAX,
        board.grid.len() + 4 <= i32::MAX,
    ensures
        board.candidate(tetromino_move).cells_representable(),
        board.cursor.anchor.y <= board.landing_row(board.cursor) <= board.grid.len(),
{
    lemma_cursor_is_near(board);
    lemma_landing_row(board, board.cursor);
    lemma_active_cursor_fits(board);
    lemma_candidate_is_oriented(board, tetromino_move);
    lemma_oriented_is_compact(board.cursor.piece);
    let candidate = board.candidate(tetromino_move);
    lemma_oriented_is_compact(candidate.piece);
    assert(board.cursor.piece.shape.sweeps(board.cursor.piece.points[0]));
    let rest = board.cursor.moved_to(
        Point { x: board.cursor.anchor.x, y: board.landing_row(board.cursor) },
    );
    if board.landing_row(board.cursor) >= board.cursor.anchor.y {
        assert(board.fits(rest));
        assert(board.in_bounds(rest.cells()[0]));
    }
    assert forall|i: int| 0 <= i < candidate.piece.points.len() implies (
    #[trigger] candidate.piece.points[i]).shifted(
        candidate.anchor.x,
        candidate.anchor.y,
    ).representable() by {
        assert(candidate.piece.shape.sweeps(candidate.piece.points[i]));
    }
}

/// The fit test is the two tests it is made of: a cursor fits exactly when
/// none of its cells is out of bounds and none of them is a cell of the
/// stack.
pub proof fn lemma_fit_test(board: BoardView, cursor: CursorView)
    ensures
        board.fits(cursor) == (!board.any_out_of_bounds(cursor.cells()) && board.all_not_stack(
            cursor.cells(),
        )),
{
}

/// The landing row is the row of the anchor at which a dropped piece comes
/// to rest: the piece fits at every row from its own down to that one, and
/// it does not fit one row further down. If the piece does not fit where it
/// is, the landing row is the row above it.
pub proof fn lemma_landing_row(board: BoardView, cursor: CursorView)
    requires
        cursor.piece.points.len() > 0,
    ensures
        cursor.anchor.y - 1 <= board.landing_row(cursor),
        board.fits(cursor) ==> cursor.anchor.y <= board.landing_row(cursor),
        forall|y: int|
            cursor.anchor.y <= y <= board.landing_row(cursor) ==> board.fits(
                #[trigger] cursor.moved_to(Point { x: cursor.anchor.x, y }),
            ),
        !board.fits(
            cursor.moved_to(Point { x: cursor.anchor.x, y: board.landing_row(cursor) + 1 }),
        ),
    decreases board.grid.len() - cursor.anchor.y - cursor.piece.points[0].y,
{
    let x = cursor.anchor.x;
    assert(cursor.moved_to(Point { x, y: cursor.anchor.y }) == cursor);
    if board.fits(cursor) {
        assert(board.in_bounds(cursor.cells()[0]));
        let below = cursor.moved_by(0, 1);
        lemma_landing_row(board, below);
        assert forall|y: int| cursor.anchor.y <= y <= board.landing_row(cursor) implies board.fits(
            #[trigger] cursor.moved_to(Point { x, y }),
        ) by {
            if y > cursor.anchor.y {
                assert(below.moved_to(Point { x, y }) == cursor.moved_to(Point { x, y }));
            }
        }
        assert(below.moved_to(Point { x, y: board.landing_row(cursor) + 1 }) == cursor.moved_to(
            Point { x, y: board.landing_row(cursor) + 1 },
        ));
    }
}

// Every update leaves a sound board sound.

/// A new game starts on a sound board.
pub proof fn lemma_initial_valid(active: Shape, upcoming: Shape, high_score: int)
    requires
        0 <= high_score,
    ensures
        BoardView::initial(active, upcoming, high_score).valid(),
{
    let board = BoardView::initial(active, upcoming, high_score);
    let blank = empty_rows(24, 10);
    assert(is_rectangular(blank, 10));
    lemma_spawn_is_in_grid(BoardView { grid: blank, ..board }, active);
    lemma_painted_shape(blank, board.cursor.cells(), State::Cursor);
    assert(is_rectangular(board.grid, 10));
    assert(all_in_grid(board.grid, board.cursor.cells()));
    assert forall|x: int, y: int|
        0 <= y < board.grid.len() && 0 <= x < board.grid[y].len() implies (
    #[trigger] board.grid[y][x] == State::Cursor <==> board.cursor.cells().contains(
        Point { x, y },
    )) by {
        assert(blank[y][x] == State::Empty);
    }
    assert(has_no_full_row(blank)) by {
        assert forall|y: int| 0 <= y < blank.len() implies !row_is_full(#[trigger] blank[y]) by {
            assert(blank[y][0] == State::Empty);
        }
    }
    lemma_painting_fills_no_row(blank, board.cursor.cells(), State::Cursor);
}

/// A sound board stays sound when its piece moves to a place where it fits.
pub proof fn lemma_with_cursor_valid(board: BoardView, cursor: CursorView)
    requires
        board.valid(),
        board.fits(cursor),
        cursor.piece.is_oriented(),
    ensures
        board.with_cursor(cursor).valid(),
{
    let emptied = painted(board.grid, board.cursor.cells(), State::Empty);
    let after = board.with_cursor(cursor);
    lemma_fitting_cursor_is_in_grid(board, cursor);
    lemma_painted_shape(board.grid, board.cursor.cells(), State::Empty);
    lemma_painted_shape(emptied, cursor.cells(), State::Cursor);
    assert(is_rectangular(emptied, board.cols));
    assert(is_rectangular(after.grid, board.cols));
    assert(all_in_grid(emptied, cursor.cells()));
    assert(all_in_grid(after.grid, cursor.cells()));
    lemma_painting_fills_no_row(board.grid, board.cursor.cells(), State::Empty);
    lemma_painting_fills_no_row(emptied, cursor.cells(), State::Cursor);
    assert forall|x: int, y: int|
        0 <= y < after.grid.len() && 0 <= x < after.grid[y].len() implies (
    #[trigger] after.grid[y][x] == State::Cursor <==> after.cursor.cells().contains(
        Point { x, y },
    )) by {
        assert(board.grid[y].len() == board.cols);
        assert(emptied[y].len() == board.cols);
        assert(board.grid[y][x] == State::Cursor <==> board.cursor.cells().contains(
            Point { x, y },
        ));
    }
}

/// Scoring leaves a sound board sound.
pub proof fn lemma_with_gain_valid(board: BoardView, gain: int)
    requires
        board.valid(),
        0 <= gain,
    ensures
        board.with_gain(gain).valid(),
{
    let after = board.with_gain(gain);
    assert(after.grid == board.grid);
    assert(after.cursor == board.cursor);
}

/// Docking leaves a sound board sound: the rows are as many as before, the
/// new piece stands on cells of the grid, and no cell but its own is marked
/// as the cursor's.
pub proof fn lemma_docked_valid(board: BoardView, refill: Shape)
    requires
        board.valid(),
    ensures
        board.docked(refill).board.valid(),
{
    let stacked = board.stacked_grid();
    let settled = cleared(stacked, board.cols);
    let after = board.docked(refill).board;
    let next = after.cursor;
    lemma_painted_shape(board.grid, board.cursor.cells(), State::Stack);
    assert(is_rectangular(stacked, board.cols));
    lemma_cleared_shape(stacked, board.cols);
    lemma_painted_shape(settled, next.cells(), State::Cursor);
    assert(is_rectangular(after.grid, board.cols));
    lemma_cleared_has_no_full_row(stacked, board.cols);
    lemma_painting_fills_no_row(settled, next.cells(), State::Cursor);
    lemma_spawn_is_in_grid(BoardView { grid: settled, ..board }, board.queue.push(refill)[0]);
    assert(all_in_grid(after.grid, next.cells()));
    assert forall|x: int, y: int|
        0 <= y < after.grid.len() && 0 <= x < after.grid[y].len() implies (
    #[trigger] after.grid[y][x] == State::Cursor <==> next.cells().contains(Point { x, y })) by {
        assert(settled[y].len() == board.cols);
        if settled[y] == empty_rows(1, board.cols)[0] {
            assert(settled[y][x] == State::Empty);
        } else {
            assert(stacked.contains(settled[y]));
            let j = choose|j: int| 0 <= j < stacked.len() && stacked[j] == settled[y];
            assert(board.grid[j].len() == board.cols);
            assert(board.grid[j][x] == State::Cursor <==> board.cursor.cells().contains(
                Point { x, y: j },
            ));
            assert(stacked[j][x] != State::Cursor);
        }
    }
    assert(0 <= clear_points(full_row_count(stacked)));
}

/// The first half of an update leaves a sound board sound.
pub proof fn lemma_shifted_valid(board: BoardView, tetromino_move: TetrominoMove)
    requires
        board.valid(),
    ensures
        board.shifted(tetromino_move).valid(),
{
    let candidate = board.candidate(tetromino_move);
    lemma_candidate_is_oriented(board, tetromino_move);
    if board.fits(candidate) {
        let moved = board.with_cursor(candidate);
        lemma_with_cursor_valid(board, candidate);
        lemma_with_gain_valid(moved, 1);
        lemma_with_gain_valid(moved, 12);
    }
}

/// Every update leaves a sound board sound.
pub proof fn lemma_step_valid(board: BoardView, tetromino_move: TetrominoMove, refill: Shape)
    requires
        board.valid(),
    ensures
        board.step(tetromino_move, refill).board.valid(),
{
    lemma_shifted_valid(board, tetromino_move);
    lemma_docked_valid(board.shifted(tetromino_move), refill);
}

// Moves that are rejected, and the refill.

/// A rejected move is a no-op: a move to the side or a turn whose
/// candidate does not fit leaves the grid, the piece, the queue, the
/// scores and everything else as they were, and reports nothing.
pub proof fn lemma_rejected_move_changes_nothing(
    board: BoardView,
    tetromino_move: TetrominoMove,
    refill: Shape,
)
    requires
        board.rejects(tetromino_move),
    ensures
        board.step(tetromino_move, refill).board == board,
        !board.step(tetromino_move, refill).topped_out,
        board.step(tetromino_move, refill).rows_cleared == 0,
{
}

/// An update that does not dock the piece does not look at the refill and
/// reports nothing: no top-out and no row.
pub proof fn lemma_refill_matters_only_when_docking(
    board: BoardView,
    tetromino_move: TetrominoMove,
    refill: Shape,
    other: Shape,
)
    requires
        !board.locks(tetromino_move),
    ensures
        board.step(tetromino_move, refill) == board.step(tetromino_move, other),
        board.step(tetromino_move, refill) == board.shifted(tetromino_move).undocked(),
{
}

// Scoring.

/// The score that an update leaves does not depend on the shape that
/// joins the queue.
pub proof fn lemma_score_after(board: BoardView, tetromino_move: TetrominoMove, refill: Shape)
    ensures
        board.step(tetromino_move, refill).board.score == board.score_after(tetromino_move),
        board.shifted(tetromino_move).score <= board.score_after(tetromino_move),
        board.locks(tetromino_move) ==> board.shifted(tetromino_move).docked(refill).board.score
            == board.score_after(tetromino_move),
{
}

/// No update adds more to the score than a hard drop and four rows do, and
/// none takes anything from it.
pub proof fn lemma_update_gains_at_most(board: BoardView, tetromino_move: TetrominoMove)
    ensures
        board.score <= board.score_after(tetromino_move) <= board.score + MOST_POINTS_PER_UPDATE,
{
}

/// The clear table is exact: docking while exactly one, two, three or four
/// rows are full adds 100, 300, 500 or 800 to the score, and docking while
/// no row is full adds nothing. The rows reported are the full rows.
pub proof fn lemma_docking_scores_by_the_table(board: BoardView, refill: Shape)
    ensures
        board.docked(refill).rows_cleared == full_row_count(board.stacked_grid()),
        board.docked(refill).board.score == board.score + clear_points(
            board.docked(refill).rows_cleared,
        ),
        board.docked(refill).rows_cleared == 0 ==> board.docked(refill).board.score == board.score,
        board.docked(refill).rows_cleared == 1 ==> board.docked(refill).board.score == board.score
            + 100,
        board.docked(refill).rows_cleared == 2 ==> board.docked(refill).board.score == board.score
            + 300,
        board.docked(refill).rows_cleared == 3 ==> board.docked(refill).board.score == board.score
            + 500,
        board.docked(refill).rows_cleared == 4 ==> board.docked(refill).board.score == board.score
            + 800,
        board.docked(refill).board.clear_pending == (board.clear_pending || board.docked(
            refill,
        ).rows_cleared > 0),
{
}

/// What an update adds to the score: the bonus of a soft or hard drop that
/// fits, and what the table gives for the rows it takes out; the one does
/// not depend on the other.
pub proof fn lemma_score_of_an_update(
    board: BoardView,
    tetromino_move: TetrominoMove,
    refill: Shape,
)
    ensures
        board.step(tetromino_move, refill).board.score == board.score + board.drop_bonus(
            tetromino_move,
        ) + clear_points(board.step(tetromino_move, refill).rows_cleared),
        board.drop_bonus(tetromino_move) == 0 || board.drop_bonus(tetromino_move) == 1
            || board.drop_bonus(tetromino_move) == 12,
{
}

/// The scores never fall, and the high score is never below the score.
pub proof fn lemma_scores_never_fall(
    board: BoardView,
    tetromino_move: TetrominoMove,
    refill: Shape,
)
    requires
        board.valid(),
    ensures
        board.score <= board.step(tetromino_move, refill).board.score,
        board.high_score <= board.step(tetromino_move, refill).board.high_score,
        board.step(tetromino_move, refill).board.score <= board.step(
            tetromino_move,
            refill,
        ).board.high_score,
{
    lemma_step_valid(board, tetromino_move, refill);
}

/// Docking on a sound board takes out four rows at most: a row can only
/// have become full by a cell of the piece, and the piece reaches over no
/// more than four rows. So the table is never asked for more than it holds.
pub proof fn lemma_at_most_four_rows(board: BoardView, refill: Shape)
    requires
        board.valid(),
    ensures
        board.docked(refill).rows_cleared <= 4,
        forall|y: int|
            0 <= y < board.grid.len() && row_is_full(#[trigger] board.stacked_grid()[y]) ==> exists|
                i: int,
            |
                0 <= i < 4 && (#[trigger] board.cursor.cells()[i]).y == y,
{
    let stacked = board.stacked_grid();
    let cells = board.cursor.cells();
    lemma_oriented_is_compact(board.cursor.piece);
    lemma_painted_shape(board.grid, cells, State::Stack);
    let first = board.cursor.anchor.y - 1;
    assert forall|y: int| 0 <= y < stacked.len() && row_is_full(
        #[trigger] stacked[y],
    ) implies first <= y < first + 4 && exists|i: int|
        0 <= i < 4 && (#[trigger] cells[i]).y == y by {
        assert(!row_is_full(board.grid[y]));
        let x = choose|x: int| 0 <= x < board.grid[y].len() && board.grid[y][x] != State::Stack;
        assert(stacked[y][x] == State::Stack);
        assert(cells.contains(Point { x, y }));
        let i = choose|i: int| 0 <= i < cells.len() && cells[i] == Point { x, y };
        assert(cells[i].y == y);
        assert(board.cursor.piece.shape.sweeps(board.cursor.piece.points[i]));
    }
    lemma_full_rows_in_a_run(stacked, first, 4);
}

/// An update on a sound board takes out four rows at most.
pub proof fn lemma_update_clears_at_most_four_rows(
    board: BoardView,
    tetromino_move: TetrominoMove,
    refill: Shape,
)
    requires
        board.valid(),
    ensures
        board.step(tetromino_move, refill).rows_cleared <= 4,
{
    lemma_shifted_valid(board, tetromino_move);
    lemma_at_most_four_rows(board.shifted(tetromino_move), refill);
}

// Dimensions and the queue.

/// An update keeps the dimensions of the board and the length of the
/// queue: the columns, the visible rows and the rows in all are as many
/// as before, also when rows were taken out, and after a piece is spawned
/// the queue is as long as it was.
pub proof fn lemma_step_keeps_dimensions(
    board: BoardView,
    tetromino_move: TetrominoMove,
    refill: Shape,
)
    requires
        board.valid(),
    ensures
        board.step(tetromino_move, refill).board.same_dimensions(board),
        is_rectangular(board.step(tetromino_move, refill).board.grid, board.cols),
{
    lemma_step_valid(board, tetromino_move, refill);
}

/// Docking keeps the length of the queue: one shape leaves it at the front
/// and the refill joins it at the back.
pub proof fn lemma_docking_keeps_queue_length(board: BoardView, refill: Shape)
    requires
        board.queue.len() >= 1,
    ensures
        board.docked(refill).board.queue.len() == board.queue.len(),
        board.docked(refill).board.queue.last() == refill,
        board.docked(refill).board.cursor.piece == PieceView::spawn(board.queue[0]),
        forall|i: int|
            1 <= i < board.queue.len() ==> board.docked(refill).board.queue[i - 1]
                == #[trigger] board.queue[i],
{
}

/// Row-count invariance: after any sequence of updates the board is sound
/// and has the dimensions and the queue length that it started with.
pub proof fn lemma_play_keeps_dimensions(board: BoardView, moves: Seq<(TetrominoMove, Shape)>)
    requires
        board.valid(),
    ensures
        board.play(moves).valid(),
        board.play(moves).same_dimensions(board),
        board.score <= board.play(moves).score,
        board.high_score <= board.play(moves).high_score,
    decreases moves.len(),
{
    if moves.len() > 0 {
        let before = board.play(moves.drop_last());
        lemma_play_keeps_dimensions(board, moves.drop_last());
        lemma_step_valid(before, moves.last().0, moves.last().1);
        lemma_step_keeps_dimensions(before, moves.last().0, moves.last().1);
        lemma_scores_never_fall(before, moves.last().0, moves.last().1);
    }
}

// Topping out.

/// The first stack row at or below `from` is at or below `from`, no row
/// between the two holds a stack cell, and it holds one itself unless it
/// is the number of rows.
pub proof fn lemma_stack_top_from(grid: Seq<Seq<State>>, from: int)
    requires
        0 <= from <= grid.len(),
    ensures
        from <= stack_top_from(grid, from) <= grid.len(),
        forall|y: int|
            from <= y < stack_top_from(grid, from) ==> !row_has_stack(#[trigger] grid[y]),
        stack_top_from(grid, from) < grid.len() ==> row_has_stack(
            grid[stack_top_from(grid, from)],
        ),
    decreases grid.len() - from,
{
    if from < grid.len() && !row_has_stack(grid[from]) {
        lemma_stack_top_from(grid, from + 1);
    }
}

/// The topmost stack row is what its name says: no row above it holds a
/// stack cell, and it holds one itself unless there is none in the grid,
/// in which case it is the number of rows.
pub proof fn lemma_topmost_stack_row(grid: Seq<Seq<State>>)
    ensures
        0 <= topmost_stack_row(grid) <= grid.len(),
        forall|y: int| 0 <= y < topmost_stack_row(grid) ==> !row_has_stack(#[trigger] grid[y]),
        topmost_stack_row(grid) < grid.len() ==> row_has_stack(grid[topmost_stack_row(grid)]),
{
    lemma_stack_top_from(grid, 0);
}

/// When a piece has been docked and the full rows are gone, every cell
/// that is not empty is a cell of the stack: the rows that hold a stack
/// cell are the rows that are not empty, and the topmost of them is the
/// topmost row that is occupied at all.
pub proof fn lemma_settled_grid_holds_only_stack(board: BoardView)
    requires
        board.valid(),
    ensures
        forall|x: int, y: int|
            0 <= y < board.grid.len() && 0 <= x < board.cols ==> #[trigger] cleared(
                board.stacked_grid(),
                board.cols,
            )[y][x] != State::Cursor,
{
    let stacked = board.stacked_grid();
    let settled = cleared(stacked, board.cols);
    lemma_painted_shape(board.grid, board.cursor.cells(), State::Stack);
    lemma_cleared_shape(stacked, board.cols);
    assert forall|x: int, y: int|
        0 <= y < board.grid.len() && 0 <= x < board.cols implies #[trigger] settled[y][x]
        != State::Cursor by {
        if settled[y] == empty_rows(1, board.cols)[0] {
            assert(settled[y][x] == State::Empty);
        } else {
            assert(stacked.contains(settled[y]));
            let j = choose|j: int| 0 <= j < stacked.len() && stacked[j] == settled[y];
            assert(board.grid[j].len() == board.cols);
            assert(board.grid[j][x] == State::Cursor <==> board.cursor.cells().contains(
                Point { x, y: j },
            ));
        }
    }
}

/// The top-out trigger. Docking tops the board out exactly when, once the
/// full rows are gone, the stack is at least as high as the visible field:
/// when the topmost row that holds a stack cell is a hidden row or the
/// first visible one. In particular it does whenever that row is a hidden
/// row, that is, whenever its index is below the number of hidden rows.
pub proof fn lemma_top_out_trigger(board: BoardView, refill: Shape)
    requires
        board.valid(),
    ensures
        board.docked(refill).topped_out == (topmost_stack_row(
            cleared(board.stacked_grid(), board.cols),
        ) <= board.hidden_rows()),
        topmost_stack_row(cleared(board.stacked_grid(), board.cols)) < board.hidden_rows()
            ==> board.docked(refill).topped_out,
{
    let stacked = board.stacked_grid();
    lemma_painted_shape(board.grid, board.cursor.cells(), State::Stack);
    lemma_cleared_shape(stacked, board.cols);
}

/// An update tops the board out only by docking, and then by the top-out
/// trigger on the board as the move left it.
pub proof fn lemma_top_out_of_an_update(
    board: BoardView,
    tetromino_move: TetrominoMove,
    refill: Shape,
)
    requires
        board.valid(),
    ensures
        board.step(tetromino_move, refill).topped_out == (board.locks(tetromino_move)
            && topmost_stack_row(
            cleared(board.shifted(tetromino_move).stacked_grid(), board.cols),
        ) <= board.hidden_rows()),
{
    lemma_shifted_valid(board, tetromino_move);
    lemma_top_out_trigger(board.shifted(tetromino_move), refill);
}

// Hard drops and soft drops.

/// Moving the piece to a place where it fits changes no cell of the stack,
/// so whatever fitted before fits after, and the other way round.
pub proof fn lemma_moving_keeps_fits(board: BoardView, cursor: CursorView, other: CursorView)
    requires
        board.valid(),
        board.fits(cursor),
    ensures
        board.with_cursor(cursor).fits(other) == board.fits(other),
{
    let moved = board.with_cursor(cursor);
    let emptied = painted(board.grid, board.cursor.cells(), State::Empty);
    lemma_painted_shape(board.grid, board.cursor.cells(), State::Empty);
    lemma_painted_shape(emptied, cursor.cells(), State::Cursor);
    lemma_active_cursor_fits(board);
    let cells = other.cells();
    assert forall|i: int| 0 <= i < cells.len() implies moved.in_bounds(#[trigger] cells[i])
        == board.in_bounds(cells[i]) by {}
    if !board.any_out_of_bounds(cells) {
        assert(!moved.any_out_of_bounds(cells));
        assert forall|i: int| 0 <= i < cells.len() implies (moved.grid[(#[trigger] cells[i]).y][cells[i].x]
            == State::Stack) == (board.grid[cells[i].y][cells[i].x] == State::Stack) by {
            let p = cells[i];
            assert(board.in_bounds(p));
            assert(board.grid[p.y].len() == board.cols);
            assert(emptied[p.y].len() == board.cols);
            if cursor.cells().contains(p) {
                let k = choose|k: int| 0 <= k < cursor.cells().len() && cursor.cells()[k] == p;
                assert(board.grid[cursor.cells()[k].y][cursor.cells()[k].x] != State::Stack);
            } else if board.cursor.cells().contains(p) {
                let k = choose|k: int|
                    0 <= k < board.cursor.cells().len() && board.cursor.cells()[k] == p;
                assert(board.grid[board.cursor.cells()[k].y][board.cursor.cells()[k].x]
                    != State::Stack);
            }
        }
        if board.all_not_stack(cells) {
            assert(moved.all_not_stack(cells));
        } else {
            let i = choose|i: int|
                0 <= i < cells.len() && board.grid[(#[trigger] cells[i]).y][cells[i].x]
                    == State::Stack;
            assert(moved.grid[cells[i].y][cells[i].x] == State::Stack);
        }
    } else {
        let i = choose|i: int| 0 <= i < cells.len() && !board.in_bounds(#[trigger] cells[i]);
        assert(!moved.in_bounds(cells[i]));
    }
}

/// Two moves in a row leave the grid that the second one alone leaves: the
/// piece leaves no trace where it passed.
pub proof fn lemma_moving_twice(board: BoardView, first: CursorView, second: CursorView)
    requires
        board.valid(),
        board.fits(first),
    ensures
        board.with_cursor(first).with_cursor(second) == board.with_cursor(second),
{
    let one = board.with_cursor(first);
    let two = one.with_cursor(second);
    let direct = board.with_cursor(second);
    let emptied = painted(board.grid, board.cursor.cells(), State::Empty);
    lemma_painted_shape(board.grid, board.cursor.cells(), State::Empty);
    lemma_painted_shape(emptied, first.cells(), State::Cursor);
    lemma_painted_shape(emptied, second.cells(), State::Cursor);
    let emptied_again = painted(one.grid, first.cells(), State::Empty);
    lemma_painted_shape(one.grid, first.cells(), State::Empty);
    lemma_painted_shape(emptied_again, second.cells(), State::Cursor);
    assert(two.grid.len() == direct.grid.len());
    assert forall|y: int| 0 <= y < two.grid.len() implies #[trigger] two.grid[y]
        =~= direct.grid[y] by {
        assert(board.grid[y].len() == board.cols);
        assert(emptied[y].len() == board.cols);
        assert(one.grid[y].len() == board.cols);
        assert(emptied_again[y].len() == board.cols);
        assert forall|x: int| 0 <= x < board.cols implies two.grid[y][x] == direct.grid[y][x] by {
            let p = Point { x, y };
            if !second.cells().contains(p) && first.cells().contains(p)
                && !board.cursor.cells().contains(p) {
                let k = choose|k: int| 0 <= k < first.cells().len() && first.cells()[k] == p;
                assert(board.grid[first.cells()[k].y][first.cells()[k].x] != State::Stack);
                assert(board.grid[y][x] != State::Cursor);
            }
        }
    }
    assert(two.grid =~= direct.grid);
    assert(two =~= direct);
}

/// As long as the piece can go down, soft drops only lower it: after
/// `count` of them, no more than the piece can fall, the board is the one
/// on which the piece was moved `count` rows down at once, with one point
/// for each row; none of the drops has docked the piece.
pub proof fn lemma_soft_drops_lower_the_piece(board: BoardView, count: nat)
    requires
        board.valid(),
        count <= board.drop_height(),
    ensures
        board.after_soft_drops(count) == board.with_cursor(
            board.cursor.moved_by(0, count as int),
        ).with_gain(count as int),
        board.after_soft_drops(count).valid(),
        board.fits(board.cursor.moved_by(0, count as int)),
        count > 0 ==> !board.after_soft_drops((count - 1) as nat).locks(
            TetrominoMove::UM(UserMove::SoftDown),
        ),
    decreases count,
{
    let soft = TetrominoMove::UM(UserMove::SoftDown);
    let here = board.cursor.moved_by(0, count as int);
    lemma_oriented_is_compact(board.cursor.piece);
    lemma_landing_row(board, board.cursor);
    lemma_active_cursor_fits(board);
    assert(here == board.cursor.moved_to(
        Point { x: board.cursor.anchor.x, y: board.cursor.anchor.y + count },
    ));
    assert(board.fits(here));
    if count == 0 {
        assert(here == board.cursor);
        let same = board.with_cursor(board.cursor);
        lemma_painted_shape(board.grid, board.cursor.cells(), State::Empty);
        lemma_painted_shape(
            painted(board.grid, board.cursor.cells(), State::Empty),
            board.cursor.cells(),
            State::Cursor,
        );
        assert forall|y: int| 0 <= y < board.grid.len() implies #[trigger] same.grid[y]
            =~= board.grid[y] by {
            assert(board.grid[y].len() == board.cols);
        }
        assert(same.grid =~= board.grid);
        assert(same.with_gain(0) =~= board);
    } else {
        let fewer = (count - 1) as nat;
        let above = board.cursor.moved_by(0, fewer as int);
        lemma_soft_drops_lower_the_piece(board, fewer);
        let before = board.after_soft_drops(fewer);
        let moved = board.with_cursor(above);
        assert(before == moved.with_gain(fewer as int));
        assert(before.candidate(soft) == here);
        lemma_moving_keeps_fits(board, above, here);
        assert(before.fits(here));
        assert(!before.locks(soft));
        lemma_moving_twice(board, above, here);
        assert(before.with_cursor(here) == board.with_cursor(here).with_gain(fewer as int));
        assert(before.step(soft, Shape::O).board == before.with_cursor(here).with_gain(1));
        assert(board.with_cursor(here).with_gain(fewer as int).with_gain(1) == board.with_cursor(
            here,
        ).with_gain(count as int));
        lemma_with_cursor_valid(board, here);
        lemma_with_gain_valid(board.with_cursor(here), count as int);
    }
}

/// Hard-drop determinism. A hard drop leaves what soft drops until
/// rejection leave: after as many soft drops as the piece can fall, the
/// next soft drop is rejected and docks the piece, and that update and the
/// hard drop on the board as it was report the same and leave the same
/// board, but for the score: the hard drop has earned its flat bonus, the
/// soft drops one point for every row.
pub proof fn lemma_hard_drop_is_soft_drops_until_rejection(board: BoardView, refill: Shape)
    requires
        board.valid(),
    ensures
        0 <= board.drop_height(),
        board.fits(board.candidate(TetrominoMove::UM(UserMove::HardDown))),
        board.locks(TetrominoMove::UM(UserMove::HardDown)),
        !board.after_soft_drops(board.drop_height() as nat).fits(
            board.after_soft_drops(board.drop_height() as nat).candidate(
                TetrominoMove::UM(UserMove::SoftDown),
            ),
        ),
        ({
            let hard = board.step(TetrominoMove::UM(UserMove::HardDown), refill);
            let soft = board.after_soft_drops(board.drop_height() as nat).step(
                TetrominoMove::UM(UserMove::SoftDown),
                refill,
            );
            &&& hard.topped_out == soft.topped_out
            &&& hard.rows_cleared == soft.rows_cleared
            &&& hard.board == (BoardView {
                score: hard.board.score,
                high_score: hard.board.high_score,
                ..soft.board
            })
            &&& hard.board.score == board.score + 12 + clear_points(hard.rows_cleared)
            &&& soft.board.score == board.score + board.drop_height() + clear_points(
                soft.rows_cleared,
            )
        }),
{
    let hard_move = TetrominoMove::UM(UserMove::HardDown);
    let soft_move = TetrominoMove::UM(UserMove::SoftDown);
    lemma_oriented_is_compact(board.cursor.piece);
    lemma_landing_row(board, board.cursor);
    lemma_active_cursor_fits(board);
    let height = board.drop_height();
    let rest = board.ghost_cursor();
    assert(rest == board.cursor.moved_by(0, height));
    lemma_soft_drops_lower_the_piece(board, height as nat);
    let lowered = board.after_soft_drops(height as nat);
    let below = rest.moved_by(0, 1);
    assert(below == board.cursor.moved_to(
        Point { x: board.cursor.anchor.x, y: board.landing_row(board.cursor) + 1 },
    ));
    assert(lowered.candidate(soft_move) == below);
    lemma_moving_keeps_fits(board, rest, below);
    assert(!lowered.fits(below));
    let hard = board.step(hard_move, refill);
    let soft = lowered.step(soft_move, refill);
    assert(hard == board.with_cursor(rest).with_gain(12).docked(refill));
    assert(soft == board.with_cursor(rest).with_gain(height).docked(refill));
    assert(hard.board =~= (BoardView {
        score: hard.board.score,
        high_score: hard.board.high_score,
        ..soft.board
    }));
}

} // verus!
