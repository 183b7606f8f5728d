//! The board: the grid, the active piece, the queue and the score, and
//! the update that moves, docks, clears and scores.

pub mod cell;
pub mod cursor;
pub mod grid;
pub mod laws;
pub mod model;
pub mod position;

pub use grid::Row;

use std::collections::VecDeque;
use vstd::prelude::*;
use vstd::slice::slice_subrange;

use super::tetromino_move::TetrominoMove;
use super::user_move::UserMove;
use cell::{Cell, State};
use cursor::piece::{lemma_oriented_is_compact, Piece, PieceView, RotationDir, Shape};
use cursor::{random_shape, Cursor, CursorView};
use grid::{
    all_in_grid, clear_points, cleared, contains_any_stack_cell, empty_rows, full_row_count,
    get_points, grid_states, increment_ys, is_a_full_row, is_rectangular, lemma_cleared_shape,
    lemma_full_rows_partition, lemma_painted_shape, painted, row_states,
    set_state_of_cells_at_cursor, stack_height, stack_top_from, without_full_rows,
};
use model::{
    all_shapes, spawn_anchor, BoardView, StepView, HARD_DROP_BONUS,
    NUM_HIDDEN_ROWS_ABOVE_VISIBLE_ROWS, SOFT_DROP_BONUS,
};
use position::{points_of, Point, Position};

verus! {

/// The game: the grid, the active piece, the pieces to come and the score.
pub struct Board {
    num_visible_rows: usize,
    num_total_rows: usize,
    num_cols: usize,
    rows: Vec<Row>,
    cursor_start_position: Position,
    cursor_queue: VecDeque<Cursor>,
    cursor: Cursor,
    next_shape_candidates: Vec<Shape>,
    score: i32,
    high_score: i32,
    row_removal_animation_is_pending: bool,
    rows_just_before_removal_of_full_rows: Vec<Row>,
}

pub type ToppedOut = bool;

pub type NumRowsClearedThisUpdate = usize;

/// The shapes of the queued pieces, the next one first.
pub open spec fn queued_shapes(queue: Seq<Cursor>) -> Seq<Shape> {
    Seq::new(queue.len(), |i: int| queue[i]@.piece.shape)
}

impl View for Board {
    type V = BoardView;

    closed spec fn view(&self) -> BoardView {
        BoardView {
            cols: self.num_cols as nat,
            visible_rows: self.num_visible_rows as nat,
            grid: grid_states(self.rows@),
            cursor: self.cursor@,
            queue: queued_shapes(self.cursor_queue@),
            score: self.score as int,
            high_score: self.high_score as int,
            clear_pending: self.row_removal_animation_is_pending,
            snapshot: grid_states(self.rows_just_before_removal_of_full_rows@),
        }
    }
}

/// `macroquad::prelude::rand::srand`, which is `srand` of the crate
/// `quad-rand`: sets the state of the process-wide generator from `seed`.
/// It returns nothing, and nothing is claimed of the numbers drawn
/// afterwards.
#[verifier::external_body]
fn seed_random(seed: u64) {
    macroquad::prelude::rand::srand(seed);
}

/// A row of `num_cols` empty cells.
fn new_empty_row(num_cols: usize) -> (row: Row)
    ensures
        row_states(row@) == empty_rows(1, num_cols as nat)[0],
{
    let mut row: Row = Vec::new();
    let mut x: usize = 0;
    while x < num_cols
        invariant
            x <= num_cols,
            row@.len() == x,
            forall|j: int| 0 <= j < x ==> (#[trigger] row@[j]).state == State::Empty,
        decreases num_cols - x,
    {
        row.push(Cell::new());
        x += 1;
    }
    assert(row_states(row@) =~= empty_rows(1, num_cols as nat)[0]);
    row
}

/// `num_rows` rows of `num_cols` empty cells.
fn new_empty_rows(num_rows: usize, num_cols: usize) -> (rows: Vec<Row>)
    ensures
        grid_states(rows@) == empty_rows(num_rows as nat, num_cols as nat),
{
    let mut rows: Vec<Row> = Vec::new();
    let mut y: usize = 0;
    while y < num_rows
        invariant
            y <= num_rows,
            rows@.len() == y,
            forall|j: int|
                0 <= j < y ==> row_states((#[trigger] rows@[j])@) == empty_rows(
                    1,
                    num_cols as nat,
                )[0],
        decreases num_rows - y,
    {
        rows.push(new_empty_row(num_cols));
        y += 1;
    }
    assert(grid_states(rows@) =~~= empty_rows(num_rows as nat, num_cols as nat));
    rows
}

/// A copy of the rows, cell for cell.
fn copy_of_rows(rows: &Vec<Row>) -> (copy: Vec<Row>)
    ensures
        grid_states(copy@) == grid_states(rows@),
{
    let mut copy: Vec<Row> = Vec::new();
    let mut y: usize = 0;
    while y < rows.len()
        invariant
            y <= rows.len(),
            copy@.len() == y,
            forall|j: int| 0 <= j < y ==> (#[trigger] copy@[j])@ == rows@[j]@,
        decreases rows.len() - y,
    {
        let row = rows[y].clone();
        assert(row@ =~= rows@[y as int]@);
        copy.push(row);
        y += 1;
    }
    assert(grid_states(copy@) =~~= grid_states(rows@));
    copy
}

impl Board {
    /// What holds of the fields of every board, also in the middle of an
    /// update: the grids have the dimensions that the board records, a
    /// position of the board fits an `i32` with room to spare, and every
    /// queued piece waits at the spawn position as it will be spawned.
    spec fn shaped(&self) -> bool {
        &&& 5 <= self.num_cols
        &&& self.num_cols + 4 <= i32::MAX
        &&& self.num_total_rows + 4 <= i32::MAX
        &&& self.num_total_rows == self.num_visible_rows + NUM_HIDDEN_ROWS_ABOVE_VISIBLE_ROWS
        &&& self.rows@.len() == self.num_total_rows
        &&& is_rectangular(grid_states(self.rows@), self.num_cols as nat)
        &&& self.rows_just_before_removal_of_full_rows@.len() == self.num_total_rows
        &&& is_rectangular(
            grid_states(self.rows_just_before_removal_of_full_rows@),
            self.num_cols as nat,
        )
        &&& self.cursor_start_position@ == spawn_anchor(self.num_cols as nat)
        &&& forall|i: int|
            0 <= i < self.cursor_queue@.len() ==> (#[trigger] self.cursor_queue@[i])@
                == CursorView::spawn(
                self.cursor_queue@[i]@.piece.shape,
                self.cursor_start_position@,
            )
        &&& self.next_shape_candidates@ == all_shapes()
    }

    /// Whether the board is sound: its fields agree with each other and
    /// its content is a sound `BoardView`.
    pub closed spec fn wf(&self) -> bool {
        self.shaped() && self@.valid()
    }

    /// A sound board has a sound content.
    pub proof fn lemma_wf_is_valid(&self)
        requires
            self.wf(),
        ensures
            self@.valid(),
    {
    }

    /// A new game on a board of ten columns and twenty visible rows below
    /// four hidden ones, with `active` as the first piece and `upcoming` as
    /// the one after it. A negative `high_score` counts as none.
    pub fn with_shapes(active: Shape, upcoming: Shape, high_score: i32) -> (board: Self)
        ensures
            board.wf(),
            board@ == BoardView::initial(
                active,
                upcoming,
                if high_score < 0 {
                    0
                } else {
                    high_score as int
                },
            ),
    {
        let num_visible_rows: usize = 20;
        let num_total_rows: usize = num_visible_rows + NUM_HIDDEN_ROWS_ABOVE_VISIBLE_ROWS;
        let num_cols: usize = 10;

        let mut rows = new_empty_rows(num_total_rows, num_cols);

        let next_shape_candidates = vec![
            Shape::O,
            Shape::I,
            Shape::T,
            Shape::S,
            Shape::Z,
            Shape::J,
            Shape::L,
        ];
        assert(next_shape_candidates@ =~= all_shapes());

        let cursor_start_position = Position { x: (num_cols as i32 - 1) / 2, y: 0 };

        let mut cursor_queue: VecDeque<Cursor> = VecDeque::new();
        cursor_queue.push_back(Cursor::from_shape(upcoming, cursor_start_position));

        let cursor = Cursor::from_shape(active, cursor_start_position);
        proof {
            let blank = BoardView { grid: empty_rows(24, 10), ..BoardView::initial(active, upcoming, 0) };
            laws::lemma_spawn_is_in_grid(blank, active);
            lemma_oriented_is_compact(cursor@.piece);
            assert(cursor@.cells_representable());
        }
        set_state_of_cells_at_cursor(&cursor, &mut rows, State::Cursor);

        let rows_just_before_removal_of_full_rows = copy_of_rows(&rows);

        let board = Board {
            num_visible_rows,
            num_total_rows,
            num_cols,
            rows,
            cursor_start_position,
            cursor,
            cursor_queue,
            next_shape_candidates,
            score: 0,
            high_score: if high_score < 0 {
                0
            } else {
                high_score
            },
            row_removal_animation_is_pending: false,
            rows_just_before_removal_of_full_rows,
        };
        proof {
            let expected = BoardView::initial(
                active,
                upcoming,
                if high_score < 0 {
                    0
                } else {
                    high_score as int
                },
            );
            lemma_painted_shape(empty_rows(24, 10), cursor@.cells(), State::Cursor);
            assert(board@.queue =~= expected.queue);
            assert(board@ =~= expected);
            laws::lemma_initial_valid(active, upcoming, expected.high_score);
        }
        board
    }

    /// The number of columns.
    pub fn num_cols(&self) -> (cols: usize)
        ensures
            cols == self@.cols,
    {
        self.num_cols
    }

    /// The score.
    pub fn score(&self) -> (score: i32)
        ensures
            score == self@.score,
    {
        self.score
    }

    /// The highest score that the board has seen or was told of.
    pub fn high_score(&self) -> (high_score: i32)
        ensures
            high_score == self@.high_score,
    {
        self.high_score
    }

    /// Whether rows were taken out that the renderer has not yet acknowledged.
    pub fn row_removal_animation_is_pending(&self) -> (pending: bool)
        ensures
            pending == self@.clear_pending,
    {
        self.row_removal_animation_is_pending
    }

    /// Acknowledges the rows that were taken out.
    pub fn set_row_removal_animation_is_pending_to_false(&mut self)
        ensures
            final(self)@ == (BoardView { clear_pending: false, ..old(self)@ }),
            old(self).wf() ==> final(self).wf(),
    {
        self.row_removal_animation_is_pending = false;
    }

    /// Whether the position lies outside the board.
    pub fn is_out_of_bounds(&self, pos: Position) -> (out: bool)
        requires
            self.wf(),
        ensures
            out == !self@.in_bounds(pos@),
    {
        let (w, h) = (self.num_cols as i32, self.num_total_rows as i32);
        !(0 <= pos.x && pos.x < w) || !(0 <= pos.y && pos.y < h)
    }

    /// Whether one of the positions lies outside the board.
    pub fn any_is_out_of_bounds(&self, positions: &[Position]) -> (any: bool)
        requires
            self.wf(),
        ensures
            any == self@.any_out_of_bounds(points_of(positions@)),
    {
        let ghost cells = points_of(positions@);
        let mut i: usize = 0;
        while i < positions.len()
            invariant
                self.wf(),
                i <= positions.len(),
                cells == points_of(positions@),
                forall|j: int| 0 <= j < i ==> self@.in_bounds(#[trigger] cells[j]),
            decreases positions.len() - i,
        {
            if self.is_out_of_bounds(positions[i]) {
                assert(!self@.in_bounds(cells[i as int]));
                return true;
            }
            i += 1;
        }
        false
    }

    /// Whether none of the positions, which are all on the board, is a
    /// cell of the stack.
    pub fn all_not_occupied_by_stack(&self, positions: &[Position]) -> (all: bool)
        requires
            self.wf(),
            !self@.any_out_of_bounds(points_of(positions@)),
        ensures
            all == self@.all_not_stack(points_of(positions@)),
    {
        let ghost cells = points_of(positions@);
        let ghost grid = self@.grid;
        let mut i: usize = 0;
        while i < positions.len()
            invariant
                self.wf(),
                i <= positions.len(),
                cells == points_of(positions@),
                grid == self@.grid,
                !self@.any_out_of_bounds(cells),
                forall|j: int|
                    0 <= j < i ==> grid[(#[trigger] cells[j]).y][cells[j].x] != State::Stack,
            decreases positions.len() - i,
        {
            let pos = positions[i];
            assert(self@.in_bounds(cells[i as int]));
            assert(grid[pos.y as int].len() == self.num_cols);
            if self.rows[pos.y as usize][pos.x as usize].state == State::Stack {
                assert(grid[cells[i as int].y][cells[i as int].x] == State::Stack);
                return false;
            }
            i += 1;
        }
        true
    }

    /// Whether all the cells lie on the board and none of them is a cell of
    /// the stack.
    pub fn cursor_cells_fit_on_board(&self, cursor_cell_positions: &[Position]) -> (fit: bool)
        requires
            self.wf(),
        ensures
            fit == self@.cells_fit(points_of(cursor_cell_positions@)),
    {
        if self.any_is_out_of_bounds(cursor_cell_positions) {
            return false;
        }
        self.all_not_occupied_by_stack(cursor_cell_positions)
    }

    /// Whether the piece can stand where the cursor puts it: no cell of it
    /// lies outside the board and none is a cell of the stack.
    pub fn fits_on_board(&self, cursor: &Cursor) -> (fits: bool)
        requires
            self.wf(),
            cursor@.cells_representable(),
        ensures
            fits == self@.fits(cursor@),
            fits == (!self@.any_out_of_bounds(cursor@.cells()) && self@.all_not_stack(
                cursor@.cells(),
            )),
    {
        let point_positions = cursor.get_point_positions();
        self.cursor_cells_fit_on_board(point_positions.as_slice())
    }

    /// The row of the anchor at which the active piece comes to rest when it
    /// is dropped: it is moved down row by row while it fits.
    fn calc_hard_drop_y(&self, cursor: &Cursor) -> (hard_drop_y: i32)
        requires
            self.wf(),
            cursor@ == self@.cursor,
        ensures
            hard_drop_y == self@.landing_row(cursor@),
            cursor@.anchor.y <= hard_drop_y <= self@.grid.len(),
    {
        proof {
            lemma_oriented_is_compact(cursor@.piece);
            laws::lemma_cursor_is_near(self@);
            laws::lemma_active_cursor_fits(self@);
        }
        let ghost x = cursor@.anchor.x;
        let mut hard_drop_y = cursor.position.y;
        let mut point_positions = cursor.get_point_positions();
        assert(cursor@.moved_to(Point { x, y: hard_drop_y as int }) == cursor@);

        while self.cursor_cells_fit_on_board(point_positions.as_slice())
            invariant
                self.wf(),
                cursor@ == self@.cursor,
                cursor@.piece.is_compact(),
                x == cursor@.anchor.x,
                points_of(point_positions@) == cursor@.moved_to(
                    Point { x, y: hard_drop_y as int },
                ).cells(),
                self@.landing_row(cursor@) == self@.landing_row(
                    cursor@.moved_to(Point { x, y: hard_drop_y as int }),
                ),
                cursor@.anchor.y <= hard_drop_y <= self.num_total_rows + 1,
                self@.fits(cursor@),
            decreases self.num_total_rows + 1 - hard_drop_y,
        {
            let ghost here = cursor@.moved_to(Point { x, y: hard_drop_y as int });
            proof {
                assert(self@.in_bounds(here.cells()[0]));
                assert(self@.cursor.piece.shape.sweeps(cursor@.piece.points[0]));
                assert(here.moved_by(0, 1) == cursor@.moved_to(Point { x, y: hard_drop_y + 1 }));
                assert forall|i: int| 0 <= i < point_positions@.len() implies (
                #[trigger] point_positions@[i]).y < i32::MAX by {
                    assert(self@.in_bounds(here.cells()[i]));
                    assert(points_of(point_positions@)[i] == here.cells()[i]);
                }
            }
            let ghost before = point_positions@;
            increment_ys(&mut point_positions);
            hard_drop_y += 1;
            proof {
                let there = cursor@.moved_to(Point { x, y: hard_drop_y as int });
                assert(points_of(before).len() == here.cells().len());
                assert forall|i: int| 0 <= i < there.cells().len() implies points_of(
                    point_positions@,
                )[i] == there.cells()[i] by {
                    assert(points_of(before)[i] == here.cells()[i]);
                    assert(point_positions@[i]@ == before[i]@.shifted(0, 1));
                }
                assert(points_of(point_positions@) =~= there.cells());
            }
        }
        hard_drop_y - 1
    }

    /// The cells that the active piece would cover if it were dropped now.
    pub fn ghost_cursor_positions(&self) -> (positions: Vec<Position>)
        requires
            self.wf(),
        ensures
            points_of(positions@) == self@.ghost_cursor().cells(),
    {
        let hard_drop_y = self.calc_hard_drop_y(&self.cursor);
        let ghost_cursor = self.cursor.offset_copy(
            Position { x: self.cursor.position.x, y: hard_drop_y },
        );
        proof {
            laws::lemma_cursor_is_near(self@);
            lemma_oriented_is_compact(self@.cursor.piece);
            assert forall|i: int| 0 <= i < 4 implies (#[trigger] ghost_cursor@.piece.points[i]).shifted(
                ghost_cursor@.anchor.x,
                ghost_cursor@.anchor.y,
            ).representable() by {
                assert(self@.cursor.piece.shape.sweeps(ghost_cursor@.piece.points[i]));
            }
        }
        ghost_cursor.get_point_positions()
    }

    /// Gives `state` to every cell that the active piece covers.
    fn set_cell_states_at_cursor(&mut self, state: State)
        requires
            old(self).shaped(),
            old(self)@.cursor.cells_representable(),
            all_in_grid(old(self)@.grid, old(self)@.cursor.cells()),
        ensures
            final(self).shaped(),
            final(self)@ == (BoardView {
                grid: painted(old(self)@.grid, old(self)@.cursor.cells(), state),
                ..old(self)@
            }),
    {
        proof {
            lemma_painted_shape(self@.grid, self@.cursor.cells(), state);
        }
        set_state_of_cells_at_cursor(&self.cursor, &mut self.rows, state);
    }

    /// Makes the cells of the active piece cells of the stack.
    fn dock_cursor_to_stack(&mut self)
        requires
            old(self).shaped(),
            old(self)@.cursor.cells_representable(),
            all_in_grid(old(self)@.grid, old(self)@.cursor.cells()),
        ensures
            final(self).shaped(),
            final(self)@ == (BoardView { grid: old(self)@.stacked_grid(), ..old(self)@ }),
    {
        self.set_cell_states_at_cursor(State::Stack);
    }

    /// Adds to the score; the high score follows if the score passes it.
    fn increment_score_by(&mut self, increment_amount: i32)
        requires
            old(self).shaped(),
            i32::MIN <= old(self)@.score + increment_amount <= i32::MAX,
        ensures
            final(self).shaped(),
            final(self)@ == old(self)@.with_gain(increment_amount as int),
    {
        self.score += increment_amount;
        self.high_score = if self.score > self.high_score {
            self.score
        } else {
            self.high_score
        };
    }

    /// Takes the full rows out, puts as many empty rows in at the top, scores
    /// the clear by the table and marks it as pending if a row went. Returns
    /// the number of rows taken out.
    fn remove_full_rows_from_stack(&mut self) -> (num_removed_rows: NumRowsClearedThisUpdate)
        requires
            old(self).shaped(),
            0 <= old(self)@.score,
            old(self)@.score + clear_points(full_row_count(old(self)@.grid)) <= i32::MAX,
        ensures
            final(self).shaped(),
            num_removed_rows == full_row_count(old(self)@.grid),
            final(self)@ == (BoardView {
                grid: cleared(old(self)@.grid, old(self)@.cols),
                clear_pending: old(self)@.clear_pending || num_removed_rows > 0,
                ..old(self)@.with_gain(clear_points(num_removed_rows as nat))
            }),
    {
        let ghost grid = self@.grid;
        proof {
            lemma_full_rows_partition(grid);
            lemma_cleared_shape(grid, self.num_cols as nat);
        }
        let orig_num_rows = self.rows.len();
        retain_rows_that_are_not_full(&mut self.rows);
        let num_removed_rows = orig_num_rows - self.rows.len();
        insert_empty_rows_at_the_top(&mut self.rows, num_removed_rows, self.num_cols);
        self.increment_score_by(get_points(num_removed_rows));
        if num_removed_rows > 0 {
            self.row_removal_animation_is_pending = true;
        }
        num_removed_rows
    }

    /// The number of rows from the topmost row that holds a stack cell down
    /// to the floor, or zero if no row holds one.
    fn stack_height(&self) -> (height: usize)
        requires
            self.shaped(),
        ensures
            height == stack_height(self@.grid),
    {
        let ghost grid = self@.grid;
        let mut index: usize = 0;
        while index < self.rows.len()
            invariant
                self.shaped(),
                grid == self@.grid,
                index <= self.rows.len(),
                stack_top_from(grid, 0) == stack_top_from(grid, index as int),
            decreases self.rows.len() - index,
        {
            if contains_any_stack_cell(&self.rows[index]) {
                return self.num_total_rows - index;
            }
            index += 1;
        }
        0
    }

    /// Queues a piece of the shape `refill` and spawns the piece at the front
    /// of the queue.
    fn drop_new_piece(&mut self, refill: Shape)
        requires
            old(self).shaped(),
        ensures
            final(self).shaped(),
            final(self)@ == (BoardView {
                grid: painted(
                    old(self)@.grid,
                    CursorView::spawn(
                        old(self)@.queue.push(refill)[0],
                        spawn_anchor(old(self)@.cols),
                    ).cells(),
                    State::Cursor,
                ),
                cursor: CursorView::spawn(
                    old(self)@.queue.push(refill)[0],
                    spawn_anchor(old(self)@.cols),
                ),
                queue: old(self)@.queue.push(refill).subrange(
                    1,
                    old(self)@.queue.push(refill).len() as int,
                ),
                ..old(self)@
            }),
    {
        let ghost before = self@;
        let ghost queue_before = self.cursor_queue@;
        self.cursor_queue.push_back(Cursor::from_shape(refill, self.cursor_start_position));
        let ghost queue_pushed = self.cursor_queue@;
        assert(queued_shapes(queue_pushed) =~= before.queue.push(refill));
        let next = self.cursor_queue.pop_front();
        assert(next is Some);
        self.cursor = next.unwrap();
        proof {
            assert(self.cursor == queue_pushed[0]);
            assert(queued_shapes(self.cursor_queue@) =~= before.queue.push(refill).subrange(
                1,
                before.queue.push(refill).len() as int,
            ));
            assert forall|i: int| 0 <= i < self.cursor_queue@.len() implies (
            #[trigger] self.cursor_queue@[i])@ == CursorView::spawn(
                self.cursor_queue@[i]@.piece.shape,
                self.cursor_start_position@,
            ) by {
                assert(self.cursor_queue@[i] == queue_pushed[i + 1]);
                if i + 1 < queue_before.len() {
                    assert(queue_pushed[i + 1] == queue_before[i + 1]);
                }
            }
            if queue_before.len() > 0 {
                assert(queue_pushed[0] == queue_before[0]);
            }
            assert(self.cursor@ == CursorView::spawn(
                before.queue.push(refill)[0],
                spawn_anchor(before.cols),
            ));
            laws::lemma_spawn_is_in_grid(self@, self@.cursor.piece.shape);
            lemma_oriented_is_compact(self@.cursor.piece);
            assert forall|i: int| 0 <= i < 4 implies (#[trigger] self@.cursor.piece.points[i]).shifted(
                self@.cursor.anchor.x,
                self@.cursor.anchor.y,
            ).representable() by {
                assert(self@.cursor.piece.shape.sweeps(self@.cursor.piece.points[i]));
            }
        }
        self.set_cell_states_at_cursor(State::Cursor);
    }

    /// The docking sequence with a given refill: the piece becomes part of
    /// the stack, the grid is kept for the renderer, the full rows go, the
    /// top-out is told, and the next piece is spawned.
    fn run_docking_sequence_with(&mut self, refill: Shape) -> (report: (
        ToppedOut,
        NumRowsClearedThisUpdate,
    ))
        requires
            old(self).wf(),
            old(self)@.docked(refill).board.score <= i32::MAX,
        ensures
            final(self).wf(),
            final(self)@ == old(self)@.docked(refill).board,
            report.0 == old(self)@.docked(refill).topped_out,
            report.1 == old(self)@.docked(refill).rows_cleared,
    {
        proof {
            laws::lemma_docked_valid(self@, refill);
            laws::lemma_cursor_cells_are_representable(self@);
        }
        self.dock_cursor_to_stack();
        self.rows_just_before_removal_of_full_rows = copy_of_rows(&self.rows);
        let num_rows_cleared = self.remove_full_rows_from_stack();
        let topped_out = self.stack_height() >= self.num_visible_rows;
        self.drop_new_piece(refill);
        (topped_out, num_rows_cleared)
    }

    /// The docking sequence with a refill drawn at random from the seven
    /// shapes.
    fn run_docking_sequence(&mut self) -> (report: (ToppedOut, NumRowsClearedThisUpdate))
        requires
            old(self).wf(),
            old(self)@.docked(Shape::O).board.score <= i32::MAX,
        ensures
            final(self).wf(),
            final(self)@ == old(self)@.docked(final(self)@.queue.last()).board,
            report.0 == old(self)@.docked(final(self)@.queue.last()).topped_out,
            report.1 == old(self)@.docked(final(self)@.queue.last()).rows_cleared,
    {
        let refill = random_shape(self.next_shape_candidates.as_slice());
        self.run_docking_sequence_with(refill)
    }

    /// The first half of an update: the move is made if it fits, and a
    /// drop that fits earns its bonus. Tells whether the piece is now to
    /// be docked.
    fn make_move(&mut self, tetromino_move: TetrominoMove) -> (docks: bool)
        requires
            old(self).wf(),
            old(self)@.shifted(tetromino_move).score <= i32::MAX,
        ensures
            final(self).wf(),
            final(self)@ == old(self)@.shifted(tetromino_move),
            docks == old(self)@.locks(tetromino_move),
    {
        proof {
            laws::lemma_shifted_valid(self@, tetromino_move);
            laws::lemma_cursor_is_near(self@);
            laws::lemma_cursor_cells_are_representable(self@);
            laws::lemma_candidate_is_near(self@, tetromino_move);
        }
        let hard_drop_y = self.calc_hard_drop_y(&self.cursor);

        let new_cursor = calc_new_cursor_pos_and_orientation(
            &self.cursor,
            tetromino_move,
            hard_drop_y,
        );
        assert(new_cursor@ == self@.candidate(tetromino_move));

        if self.fits_on_board(&new_cursor) {
            proof {
                laws::lemma_fitting_cursor_is_in_grid(self@, new_cursor@);
                lemma_painted_shape(self@.grid, self@.cursor.cells(), State::Empty);
            }
            self.set_cell_states_at_cursor(State::Empty);
            self.cursor = new_cursor;
            self.set_cell_states_at_cursor(State::Cursor);
            match tetromino_move {
                TetrominoMove::UM(UserMove::SoftDown) => {
                    self.increment_score_by(SOFT_DROP_BONUS);
                    false
                },
                TetrominoMove::UM(UserMove::HardDown) => {
                    self.increment_score_by(HARD_DROP_BONUS);
                    true
                },
                _ => false,
            }
        } else {
            tetromino_move == TetrominoMove::AutoDown || tetromino_move == TetrominoMove::UM(
                UserMove::SoftDown,
            )
        }
    }

    /// One update with a given refill: the move is made if it fits, and the
    /// piece is docked if the move asks for it, in which case `refill` joins
    /// the queue. Reports whether the board is topped out and how many rows
    /// were taken out.
    #[must_use]
    pub fn update_with(&mut self, tetromino_move: TetrominoMove, refill: Shape) -> (report: (
        ToppedOut,
        NumRowsClearedThisUpdate,
    ))
        requires
            old(self).wf(),
            old(self)@.score_after(tetromino_move) <= i32::MAX,
        ensures
            final(self).wf(),
            old(self)@.step(tetromino_move, refill) == (StepView {
                board: final(self)@,
                topped_out: report.0,
                rows_cleared: report.1 as nat,
            }),
            old(self)@.rejects(tetromino_move) ==> final(self)@ == old(self)@ && report == (
                false,
                0usize,
            ),
            final(self)@.same_dimensions(old(self)@),
            report.1 <= 4,
            final(self)@.score == old(self)@.score + old(self)@.drop_bonus(tetromino_move)
                + clear_points(report.1 as nat),
    {
        proof {
            laws::lemma_score_after(self@, tetromino_move, refill);
            laws::lemma_step_keeps_dimensions(self@, tetromino_move, refill);
            laws::lemma_update_clears_at_most_four_rows(self@, tetromino_move, refill);
            laws::lemma_score_of_an_update(self@, tetromino_move, refill);
        }
        if self.make_move(tetromino_move) {
            self.run_docking_sequence_with(refill)
        } else {
            (false, 0)
        }
    }

    /// One update: the move is made if it fits, and the piece is docked if
    /// the move asks for it, in which case a shape drawn at random joins the
    /// queue. Reports whether the board is topped out and how many rows
    /// were taken out.
    ///
    /// The update is what `step` says for some shape, namely for the shape
    /// that is then the last of the queue: that is the shape drawn if the
    /// piece was docked, and `step` does not look at it if not.
    #[must_use]
    pub fn update(&mut self, tetromino_move: TetrominoMove) -> (report: (
        ToppedOut,
        NumRowsClearedThisUpdate,
    ))
        requires
            old(self).wf(),
            old(self)@.score_after(tetromino_move) <= i32::MAX,
        ensures
            final(self).wf(),
            exists|refill: Shape| #[trigger]
                old(self)@.step(tetromino_move, refill) == (StepView {
                    board: final(self)@,
                    topped_out: report.0,
                    rows_cleared: report.1 as nat,
                }),
            old(self)@.step(tetromino_move, final(self)@.queue.last()) == (StepView {
                board: final(self)@,
                topped_out: report.0,
                rows_cleared: report.1 as nat,
            }),
            old(self)@.rejects(tetromino_move) ==> final(self)@ == old(self)@ && report == (
                false,
                0usize,
            ),
            final(self)@.same_dimensions(old(self)@),
            report.1 <= 4,
            final(self)@.score == old(self)@.score + old(self)@.drop_bonus(tetromino_move)
                + clear_points(report.1 as nat),
    {
        let ghost before = self@;
        proof {
            laws::lemma_score_after(before, tetromino_move, Shape::O);
        }
        let report = if self.make_move(tetromino_move) {
            self.run_docking_sequence()
        } else {
            (false, 0)
        };
        proof {
            let refill = self@.queue.last();
            assert(before.step(tetromino_move, refill) =~= (StepView {
                board: self@,
                topped_out: report.0,
                rows_cleared: report.1 as nat,
            }));
            laws::lemma_step_keeps_dimensions(before, tetromino_move, refill);
            laws::lemma_update_clears_at_most_four_rows(before, tetromino_move, refill);
            laws::lemma_score_of_an_update(before, tetromino_move, refill);
        }
        report
    }

    /// A new game on a board of ten columns and twenty visible rows below
    /// four hidden ones. The generator from which the shapes are drawn is
    /// seeded with `seed`. A negative `high_score` counts as none.
    pub fn new(seed: u64, high_score: i32) -> (board: Self)
        ensures
            board.wf(),
            board@ == BoardView::initial(
                board@.cursor.piece.shape,
                board@.queue[0],
                if high_score < 0 {
                    0
                } else {
                    high_score as int
                },
            ),
    {
        seed_random(seed);
        let next_shape_candidates = vec![
            Shape::O,
            Shape::I,
            Shape::T,
            Shape::S,
            Shape::Z,
            Shape::J,
            Shape::L,
        ];
        let active = random_shape(next_shape_candidates.as_slice());
        let upcoming = random_shape(next_shape_candidates.as_slice());
        Board::with_shapes(active, upcoming, high_score)
    }

    /// The rows of the visible field, from the top one down.
    pub fn visible_rows(&self) -> (rows: &[Row])
        requires
            self.wf(),
        ensures
            grid_states(rows@) == self@.grid.subrange(
                NUM_HIDDEN_ROWS_ABOVE_VISIBLE_ROWS as int,
                self@.grid.len() as int,
            ),
    {
        let rows = slice_subrange(
            self.rows.as_slice(),
            NUM_HIDDEN_ROWS_ABOVE_VISIBLE_ROWS,
            self.rows.len(),
        );
        assert(grid_states(rows@) =~= self@.grid.subrange(
            NUM_HIDDEN_ROWS_ABOVE_VISIBLE_ROWS as int,
            self@.grid.len() as int,
        ));
        rows
    }

    /// The rows of the visible field as they were when the last piece was
    /// docked, before any full row was taken out.
    pub fn visible_rows_just_before_removal_of_full_rows(&self) -> (rows: &[Row])
        requires
            self.wf(),
        ensures
            grid_states(rows@) == self@.snapshot.subrange(
                NUM_HIDDEN_ROWS_ABOVE_VISIBLE_ROWS as int,
                self@.snapshot.len() as int,
            ),
    {
        let rows = slice_subrange(
            self.rows_just_before_removal_of_full_rows.as_slice(),
            NUM_HIDDEN_ROWS_ABOVE_VISIBLE_ROWS,
            self.rows_just_before_removal_of_full_rows.len(),
        );
        assert(grid_states(rows@) =~= self@.snapshot.subrange(
            NUM_HIDDEN_ROWS_ABOVE_VISIBLE_ROWS as int,
            self@.snapshot.len() as int,
        ));
        rows
    }

    /// The number of rows above the visible field.
    pub fn num_hidden_rows(&self) -> (hidden: usize)
        requires
            self.wf(),
        ensures
            hidden == self@.grid.len() - self@.visible_rows,
            hidden == NUM_HIDDEN_ROWS_ABOVE_VISIBLE_ROWS,
    {
        self.num_total_rows - self.num_visible_rows
    }

    /// The piece that comes after the active one, as it will be spawned.
    pub fn next_piece(&self) -> (piece: &Piece)
        requires
            self.wf(),
        ensures
            piece@ == PieceView::spawn(self@.queue[0]),
    {
        &self.cursor_queue[0].piece
    }
}

/// Takes the full rows out and keeps the others in their order.
fn retain_rows_that_are_not_full(rows: &mut Vec<Row>)
    ensures
        grid_states(final(rows)@) == without_full_rows(grid_states(old(rows)@)),
{
    let ghost grid = grid_states(rows@);
    let ghost mut seen: int = 0;
    let mut index: usize = 0;
    proof {
        reveal(Seq::filter);
        assert(grid.take(0) =~= Seq::<Seq<State>>::empty());
        assert(grid.skip(0) =~= grid);
        assert(grid_states(rows@) =~= without_full_rows(grid.take(0)) + grid.skip(0));
    }
    while index < rows.len()
        invariant
            0 <= seen <= grid.len(),
            index == without_full_rows(grid.take(seen)).len(),
            rows@.len() == index + grid.len() - seen,
            grid_states(rows@) == without_full_rows(grid.take(seen)) + grid.skip(seen),
        decreases grid.len() - seen,
    {
        let ghost before = grid_states(rows@);
        let ghost rows_before = rows@;
        let ghost kept = without_full_rows(grid.take(seen));
        proof {
            reveal(Seq::filter);
            assert(before[index as int] == grid.skip(seen)[0]);
            assert(grid.take(seen + 1).drop_last() =~= grid.take(seen));
            assert(grid.take(seen + 1).last() == grid[seen]);
        }
        if is_a_full_row(&rows[index]) {
            rows.remove(index);
            proof {
                let after = grid_states(rows@);
                let expected = kept + grid.skip(seen + 1);
                assert(rows@ == rows_before.remove(index as int));
                assert(after.len() == expected.len());
                assert forall|y: int| 0 <= y < after.len() implies after[y] == expected[y] by {
                    if y < index {
                        assert(rows@[y] == rows_before[y]);
                        assert(after[y] == before[y]);
                    } else {
                        assert(rows@[y] == rows_before[y + 1]);
                        assert(after[y] == before[y + 1]);
                        assert(before[y + 1] == grid.skip(seen)[y + 1 - index]);
                    }
                }
                assert(after =~= expected);
            }
        } else {
            index += 1;
            proof {
                assert(before =~= kept.push(grid[seen]) + grid.skip(seen + 1));
            }
        }
        proof {
            seen = seen + 1;
        }
    }
    proof {
        assert(grid.take(seen) =~= grid);
        assert(grid.skip(seen) =~= Seq::<Seq<State>>::empty());
    }
}

/// Puts `count` rows of `num_cols` empty cells in above the rows.
fn insert_empty_rows_at_the_top(rows: &mut Vec<Row>, count: usize, num_cols: usize)
    ensures
        grid_states(final(rows)@) == empty_rows(count as nat, num_cols as nat) + grid_states(
            old(rows)@,
        ),
{
    let ghost grid = grid_states(rows@);
    let mut inserted: usize = 0;
    assert(grid_states(rows@) =~= empty_rows(0, num_cols as nat) + grid);
    while inserted < count
        invariant
            inserted <= count,
            grid_states(rows@) == empty_rows(inserted as nat, num_cols as nat) + grid,
        decreases count - inserted,
    {
        let ghost before = grid_states(rows@);
        let ghost rows_before = rows@;
        let row = new_empty_row(num_cols);
        rows.insert(0, row);
        inserted += 1;
        assert(grid_states(rows@) =~= empty_rows(inserted as nat, num_cols as nat) + grid) by {
            let after = grid_states(rows@);
            let expected = empty_rows(inserted as nat, num_cols as nat) + grid;
            assert(rows@ == rows_before.insert(0, row));
            assert(before.len() == rows_before.len());
            assert(after.len() == expected.len());
            assert forall|y: int| 0 <= y < after.len() implies after[y] == expected[y] by {
                if y == 0 {
                    assert(rows@[0] == row);
                    assert(after[0] == empty_rows(1, num_cols as nat)[0]);
                    assert(expected[0] =~= empty_rows(1, num_cols as nat)[0]);
                } else {
                    assert(rows@[y] == rows_before[y - 1]);
                    assert(after[y] == before[y - 1]);
                    if y < inserted {
                        assert(before[y - 1] =~= expected[y]);
                    }
                }
            }
        }
    }
}

/// Where the move would put the cursor. `hard_drop_y` is the row at which
/// the cursor comes to rest when it is dropped.
pub fn calc_new_cursor_pos_and_orientation(
    curr: &Cursor,
    tetromino_move: TetrominoMove,
    hard_drop_y: i32,
) -> (candidate: Cursor)
    requires
        i32::MIN < curr.position.x < i32::MAX,
        curr.position.y < i32::MAX,
    ensures
        candidate@ == match tetromino_move {
            TetrominoMove::AutoDown => curr@.moved_by(0, 1),
            TetrominoMove::UM(UserMove::SoftDown) => curr@.moved_by(0, 1),
            TetrominoMove::UM(UserMove::HardDown) => curr@.moved_to(
                Point { x: curr@.anchor.x, y: hard_drop_y as int },
            ),
            TetrominoMove::UM(UserMove::Left) => curr@.moved_by(-1, 0),
            TetrominoMove::UM(UserMove::Right) => curr@.moved_by(1, 0),
            TetrominoMove::UM(UserMove::RotateCW) => curr@.rotated(RotationDir::Clockwise),
            TetrominoMove::UM(UserMove::RotateCCW) => curr@.rotated(RotationDir::Counterclockwise),
        },
{
    let curr_pos = curr.position;
    let cur_x = curr_pos.x;
    let cur_y = curr_pos.y;
    match tetromino_move {
        TetrominoMove::AutoDown | TetrominoMove::UM(UserMove::SoftDown) => {
            curr.offset_copy(Position { x: cur_x, y: cur_y + 1 })
        },
        TetrominoMove::UM(UserMove::HardDown) => {
            curr.offset_copy(Position { x: cur_x, y: hard_drop_y })
        },
        TetrominoMove::UM(UserMove::Left) => {
            curr.offset_copy(Position { x: cur_x - 1, y: cur_y })
        },
        TetrominoMove::UM(UserMove::Right) => {
            curr.offset_copy(Position { x: cur_x + 1, y: cur_y })
        },
        TetrominoMove::UM(UserMove::RotateCW) => curr.rotate_cw_copy(),
        TetrominoMove::UM(UserMove::RotateCCW) => curr.rotate_ccw_copy(),
    }
}

} // verus!
