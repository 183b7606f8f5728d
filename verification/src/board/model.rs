//! The mathematical model of the board and of one update.

use vstd::prelude::*;

use super::cell::State;
use super::cursor::piece::{RotationDir, Shape};
use super::cursor::CursorView;
use super::grid::{
    all_in_grid, clear_points, cleared, empty_rows, full_row_count, has_no_full_row,
    is_rectangular, painted, stack_height,
};
use super::position::Point;
use crate::tetromino_move::TetrominoMove;
use crate::user_move::UserMove;

verus! {

/// The number of rows above the visible field. Pieces are spawned there.
pub const NUM_HIDDEN_ROWS_ABOVE_VISIBLE_ROWS: usize = 4;

/// The points that a soft drop of one row earns.
pub const SOFT_DROP_BONUS: i32 = 1;

/// The points that a hard drop earns, however far the piece falls.
pub const HARD_DROP_BONUS: i32 = 12;

/// The most that one update adds to the score: the bonus of a hard drop
/// and what the table gives for four rows.
pub const MOST_POINTS_PER_UPDATE: i32 = 812;

/// The mathematical content of a board: everything that an update reads or
/// changes.
#[verifier::ext_equal]
pub struct BoardView {
    /// The number of columns.
    pub cols: nat,
    /// The number of rows of the visible field.
    pub visible_rows: nat,
    /// The state of every cell, hidden rows first, from the top row down.
    pub grid: Seq<Seq<State>>,
    /// The active piece.
    pub cursor: CursorView,
    /// The shapes to come, the next one first.
    pub queue: Seq<Shape>,
    pub score: int,
    pub high_score: int,
    /// Whether rows were taken out that the renderer has not yet shown.
    pub clear_pending: bool,
    /// The grid as it was when the last piece was docked, before any full
    /// row was taken out.
    pub snapshot: Seq<Seq<State>>,
}

/// What one update leaves and reports.
#[verifier::ext_equal]
pub struct StepView {
    pub board: BoardView,
    /// Whether the stack has reached the top of the visible field.
    pub topped_out: bool,
    /// How many full rows the update took out.
    pub rows_cleared: nat,
}

/// The seven shapes from which the next piece is drawn.
pub open spec fn all_shapes() -> Seq<Shape> {
    seq![Shape::O, Shape::I, Shape::T, Shape::S, Shape::Z, Shape::J, Shape::L]
}

/// Where a new piece is anchored: in the top row, in the middle column (the
/// left one of the two where the number of columns is even).
pub open spec fn spawn_anchor(cols: nat) -> Point {
    Point { x: (cols - 1) / 2, y: 0 }
}

impl BoardView {
    /// A new game on a board of ten columns and twenty visible rows below
    /// four hidden ones: the grid is empty but for the first piece, which
    /// stands at the spawn position; one shape waits in the queue.
    pub open spec fn initial(active: Shape, upcoming: Shape, high_score: int) -> BoardView {
        let cursor = CursorView::spawn(active, spawn_anchor(10));
        let grid = painted(empty_rows(24, 10), cursor.cells(), State::Cursor);
        BoardView {
            cols: 10,
            visible_rows: 20,
            grid,
            cursor,
            queue: seq![upcoming],
            score: 0,
            high_score,
            clear_pending: false,
            snapshot: grid,
        }
    }

    /// Whether the point is a cell of the board.
    pub open spec fn in_bounds(self, p: Point) -> bool {
        0 <= p.x < self.cols && 0 <= p.y < self.grid.len()
    }

    /// Whether one of the cells lies outside the board.
    pub open spec fn any_out_of_bounds(self, cells: Seq<Point>) -> bool {
        exists|i: int| 0 <= i < cells.len() && !self.in_bounds(#[trigger] cells[i])
    }

    /// Whether none of the cells belongs to the stack.
    pub open spec fn all_not_stack(self, cells: Seq<Point>) -> bool {
        forall|i: int|
            0 <= i < cells.len() ==> self.grid[(#[trigger] cells[i]).y][cells[i].x] != State::Stack
    }

    /// Whether all the cells lie on the board and none of them belongs to the stack.
    pub open spec fn cells_fit(self, cells: Seq<Point>) -> bool {
        !self.any_out_of_bounds(cells) && self.all_not_stack(cells)
    }

    /// Whether the piece can stand where the cursor puts it.
    pub open spec fn fits(self, cursor: CursorView) -> bool {
        self.cells_fit(cursor.cells())
    }

    /// The row of the anchor at which `cursor` comes to rest when it is
    /// dropped: the cursor is moved down row by row while it fits, and the
    /// last row at which it did is the result. For a cursor that does not
    /// fit where it is, that is the row above it.
    pub open spec fn landing_row(self, cursor: CursorView) -> int
        decreases self.grid.len() - cursor.anchor.y - cursor.piece.points[0].y,
    {
        if cursor.piece.points.len() > 0 && self.fits(cursor) {
            proof {
                assert(self.in_bounds(cursor.cells()[0]));
            }
            self.landing_row(cursor.moved_by(0, 1))
        } else {
            cursor.anchor.y - 1
        }
    }

    /// The active piece dropped as far as it goes.
    pub open spec fn ghost_cursor(self) -> CursorView {
        self.cursor.moved_to(Point { x: self.cursor.anchor.x, y: self.landing_row(self.cursor) })
    }

    /// Where the move would put the active piece.
    pub open spec fn candidate(self, tetromino_move: TetrominoMove) -> CursorView {
        match tetromino_move {
            TetrominoMove::AutoDown => self.cursor.moved_by(0, 1),
            TetrominoMove::UM(UserMove::SoftDown) => self.cursor.moved_by(0, 1),
            TetrominoMove::UM(UserMove::HardDown) => self.ghost_cursor(),
            TetrominoMove::UM(UserMove::Left) => self.cursor.moved_by(-1, 0),
            TetrominoMove::UM(UserMove::Right) => self.cursor.moved_by(1, 0),
            TetrominoMove::UM(UserMove::RotateCW) => self.cursor.rotated(RotationDir::Clockwise),
            TetrominoMove::UM(UserMove::RotateCCW) => self.cursor.rotated(
                RotationDir::Counterclockwise,
            ),
        }
    }

    /// The board with the active piece replaced by `cursor`: the cells of
    /// the old one are emptied, then those of the new one are marked.
    pub open spec fn with_cursor(self, cursor: CursorView) -> BoardView {
        BoardView {
            grid: painted(
                painted(self.grid, self.cursor.cells(), State::Empty),
                cursor.cells(),
                State::Cursor,
            ),
            cursor,
            ..self
        }
    }

    /// The board with `gain` points more; the high score follows the score.
    pub open spec fn with_gain(self, gain: int) -> BoardView {
        BoardView {
            score: self.score + gain,
            high_score: if self.score + gain > self.high_score {
                self.score + gain
            } else {
                self.high_score
            },
            ..self
        }
    }

    /// The grid once the active piece has become part of the stack.
    pub open spec fn stacked_grid(self) -> Seq<Seq<State>> {
        painted(self.grid, self.cursor.cells(), State::Stack)
    }

    /// The docking sequence. The active piece becomes part of the stack; the
    /// grid is kept as the snapshot; the full rows are taken out and as many
    /// empty rows put in at the top; the clear is scored by the table; the
    /// clear is marked as pending if a row went; the board is topped out if
    /// the stack is now at least as high as the visible field; `refill`
    /// joins the queue at the back; and the shape at the front of the queue
    /// is spawned, whether or not the board is topped out.
    pub open spec fn docked(self, refill: Shape) -> StepView {
        let stacked = self.stacked_grid();
        let rows_cleared = full_row_count(stacked);
        let settled = cleared(stacked, self.cols);
        let queue = self.queue.push(refill);
        let next = CursorView::spawn(queue[0], spawn_anchor(self.cols));
        StepView {
            board: BoardView {
                grid: painted(settled, next.cells(), State::Cursor),
                cursor: next,
                queue: queue.subrange(1, queue.len() as int),
                clear_pending: self.clear_pending || rows_cleared > 0,
                snapshot: stacked,
                ..self.with_gain(clear_points(rows_cleared))
            },
            topped_out: stack_height(settled) >= self.visible_rows,
            rows_cleared,
        }
    }

    /// The board as the move leaves it when nothing is docked.
    pub open spec fn undocked(self) -> StepView {
        StepView { board: self, topped_out: false, rows_cleared: 0 }
    }

    /// Whether the move is one of the descents that dock the piece when it
    /// cannot go down.
    pub open spec fn docks_when_blocked(tetromino_move: TetrominoMove) -> bool {
        tetromino_move == TetrominoMove::AutoDown || tetromino_move == TetrominoMove::UM(
            UserMove::SoftDown,
        )
    }

    /// The first half of an update. A move whose candidate fits is made,
    /// and a soft drop or a hard drop then earns its bonus. A move whose
    /// candidate does not fit leaves the board as it is.
    pub open spec fn shifted(self, tetromino_move: TetrominoMove) -> BoardView {
        let candidate = self.candidate(tetromino_move);
        if self.fits(candidate) {
            let moved = self.with_cursor(candidate);
            match tetromino_move {
                TetrominoMove::UM(UserMove::SoftDown) => moved.with_gain(SOFT_DROP_BONUS as int),
                TetrominoMove::UM(UserMove::HardDown) => moved.with_gain(HARD_DROP_BONUS as int),
                _ => moved,
            }
        } else {
            self
        }
    }

    /// Whether the update docks the piece: a hard drop that fits always
    /// does, in the same update; the timed descent and the soft drop do
    /// when the piece cannot go down; nothing else does.
    pub open spec fn locks(self, tetromino_move: TetrominoMove) -> bool {
        if self.fits(self.candidate(tetromino_move)) {
            tetromino_move == TetrominoMove::UM(UserMove::HardDown)
        } else {
            BoardView::docks_when_blocked(tetromino_move)
        }
    }

    /// One update: the move is made if it fits, and the piece is docked if
    /// the move asks for it. A move to the side or a turn that does not fit
    /// changes nothing. `refill` is the shape that joins the queue if the
    /// piece is docked; otherwise it plays no part.
    pub open spec fn step(self, tetromino_move: TetrominoMove, refill: Shape) -> StepView {
        if self.locks(tetromino_move) {
            self.shifted(tetromino_move).docked(refill)
        } else {
            self.shifted(tetromino_move).undocked()
        }
    }

    /// The board after the updates of `moves`, made in their order. Each
    /// entry is a move and the shape that joins the queue if that move
    /// docks the piece.
    pub open spec fn play(self, moves: Seq<(TetrominoMove, Shape)>) -> BoardView
        decreases moves.len(),
    {
        if moves.len() == 0 {
            self
        } else {
            self.play(moves.drop_last()).step(moves.last().0, moves.last().1).board
        }
    }

    /// The board after `count` soft drops in a row. The shape named for
    /// the queue plays no part as long as none of them docks the piece.
    pub open spec fn after_soft_drops(self, count: nat) -> BoardView
        decreases count,
    {
        if count == 0 {
            self
        } else {
            self.after_soft_drops((count - 1) as nat).step(
                TetrominoMove::UM(UserMove::SoftDown),
                Shape::O,
            ).board
        }
    }

    /// How many rows the active piece can go down.
    pub open spec fn drop_height(self) -> int {
        self.landing_row(self.cursor) - self.cursor.anchor.y
    }

    /// Whether the move is a move to the side or a turn: a move that is
    /// dropped without a trace when it does not fit.
    pub open spec fn is_sideways_or_turn(tetromino_move: TetrominoMove) -> bool {
        ||| tetromino_move == TetrominoMove::UM(UserMove::Left)
        ||| tetromino_move == TetrominoMove::UM(UserMove::Right)
        ||| tetromino_move == TetrominoMove::UM(UserMove::RotateCW)
        ||| tetromino_move == TetrominoMove::UM(UserMove::RotateCCW)
    }

    /// Whether the update drops the move without a trace: it is a move to
    /// the side or a turn, and the piece does not fit where it would go.
    pub open spec fn rejects(self, tetromino_move: TetrominoMove) -> bool {
        BoardView::is_sideways_or_turn(tetromino_move) && !self.fits(
            self.candidate(tetromino_move),
        )
    }

    /// The bonus that the move earns by itself: one point for a soft drop
    /// that fits, twelve for a hard drop that fits, nothing otherwise.
    pub open spec fn drop_bonus(self, tetromino_move: TetrominoMove) -> int {
        if !self.fits(self.candidate(tetromino_move)) {
            0
        } else if tetromino_move == TetrominoMove::UM(UserMove::SoftDown) {
            SOFT_DROP_BONUS as int
        } else if tetromino_move == TetrominoMove::UM(UserMove::HardDown) {
            HARD_DROP_BONUS as int
        } else {
            0
        }
    }

    /// Whether the board has the columns, the rows, visible and in all,
    /// and the queue length of `other`.
    pub open spec fn same_dimensions(self, other: BoardView) -> bool {
        &&& self.cols == other.cols
        &&& self.visible_rows == other.visible_rows
        &&& self.grid.len() == other.grid.len()
        &&& self.queue.len() == other.queue.len()
    }

    /// The number of rows above the visible field.
    pub open spec fn hidden_rows(self) -> int {
        self.grid.len() - self.visible_rows
    }

    /// The score that the update leaves: the score, the bonus of a drop
    /// that fits, and what the table gives for the rows taken out.
    pub open spec fn score_after(self, tetromino_move: TetrominoMove) -> int {
        let shifted = self.shifted(tetromino_move);
        if self.locks(tetromino_move) {
            shifted.score + clear_points(full_row_count(shifted.stacked_grid()))
        } else {
            shifted.score
        }
    }

    /// What a sound board satisfies at every moment between two updates.
    /// The board is wide enough for every shape to be spawned; both grids
    /// are rectangles of the recorded width, and as high as the visible
    /// field and the hidden rows together; the active piece is a
    /// silhouette of its shape and stands on cells of the grid; the cells
    /// marked as the cursor's are its cells and no others; no row is full;
    /// a shape waits in the queue; and the score, which is not negative,
    /// is not above the high score.
    pub open spec fn valid(self) -> bool {
        &&& 5 <= self.cols
        &&& self.grid.len() == self.visible_rows + NUM_HIDDEN_ROWS_ABOVE_VISIBLE_ROWS
        &&& is_rectangular(self.grid, self.cols)
        &&& self.snapshot.len() == self.grid.len()
        &&& is_rectangular(self.snapshot, self.cols)
        &&& self.cursor.piece.is_oriented()
        &&& all_in_grid(self.grid, self.cursor.cells())
        &&& self.only_cursor_cells_are_marked()
        &&& has_no_full_row(self.grid)
        &&& self.queue.len() >= 1
        &&& 0 <= self.score <= self.high_score
    }

    /// Whether the cells in state `Cursor` are exactly the cells of the
    /// active piece: there is one active piece, and it shares no cell with
    /// the stack.
    pub open spec fn only_cursor_cells_are_marked(self) -> bool {
        forall|x: int, y: int|
            0 <= y < self.grid.len() && 0 <= x < self.grid[y].len() ==> (#[trigger] self.grid[y][x]
                == State::Cursor <==> self.cursor.cells().contains(Point { x, y }))
    }
}

} // verus!
