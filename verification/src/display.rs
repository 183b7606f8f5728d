//! What a renderer needs of the board, as plain values: the display state
//! of every visible cell, and the frames of the animation that shows full
//! rows going away.

use vstd::prelude::*;

use crate::board::cell::{Cell, State};
use crate::board::cursor::piece::{Piece, PieceView};
use crate::board::grid::{grid_states, row_states, Row};
use crate::board::model::{BoardView, NUM_HIDDEN_ROWS_ABOVE_VISIBLE_ROWS};
use crate::board::position::{points_of, Position};
use crate::board::Board;

verus! {

/// How one cell is shown.
#[derive(Debug, PartialEq, Eq, Structural, Copy, Clone)]
pub enum CellDisplayState {
    Empty,
    Cursor,
    Stack,
    BeingRemoved,
}

/// One row as it is shown.
pub type DisplayRow = Vec<CellDisplayState>;

/// Everything of a board that is shown.
pub struct BoardState {
    pub num_cols: usize,
    pub latest_visible_rows: Vec<DisplayRow>,
    pub visible_rows_just_before_removal_of_full_rows: Vec<DisplayRow>,
    pub next_piece: Piece,
    pub score: i32,
    pub ghost_cursor_positions: Vec<Position>,
    pub num_hidden_rows: usize,
}

/// How a cell in the given state is shown.
pub open spec fn shown_as(state: State) -> CellDisplayState {
    match state {
        State::Empty => CellDisplayState::Empty,
        State::Cursor => CellDisplayState::Cursor,
        State::Stack => CellDisplayState::Stack,
    }
}

/// How a row of cells in the given states is shown.
pub open spec fn row_shown_as(states: Seq<State>) -> Seq<CellDisplayState> {
    Seq::new(states.len(), |x: int| shown_as(states[x]))
}

/// How rows of cells in the given states are shown.
pub open spec fn rows_shown_as(grid: Seq<Seq<State>>) -> Seq<Seq<CellDisplayState>> {
    Seq::new(grid.len(), |y: int| row_shown_as(grid[y]))
}

/// The display rows as sequences.
pub open spec fn display_rows(rows: Seq<DisplayRow>) -> Seq<Seq<CellDisplayState>> {
    Seq::new(rows.len(), |y: int| rows[y]@)
}

/// A row is shown full when every cell of it is shown as stack.
pub open spec fn shown_full(row: Seq<CellDisplayState>) -> bool {
    forall|x: int| 0 <= x < row.len() ==> #[trigger] row[x] == CellDisplayState::Stack
}

/// The indices of the rows that are shown full, in rising order.
pub open spec fn indices_of_full_rows(rows: Seq<Seq<CellDisplayState>>) -> Seq<int>
    decreases rows.len(),
{
    if rows.len() == 0 {
        Seq::empty()
    } else if shown_full(rows.last()) {
        indices_of_full_rows(rows.drop_last()).push(rows.len() - 1)
    } else {
        indices_of_full_rows(rows.drop_last())
    }
}

/// Where the gap of an animation row opens next on the left: one cell to
/// the left of the first cell that is not shown as being removed, or at
/// that cell if it is the first of the row; in the middle (the right one
/// of the two middle cells of a row of even length) if there is no gap yet.
pub open spec fn next_gap_start(row: Seq<CellDisplayState>) -> int {
    let first_open = first_not_being_removed(row, 0);
    if first_open == row.len() {
        (row.len() / 2) as int
    } else if first_open == 0 {
        0
    } else {
        first_open - 1
    }
}

/// The index of the first cell at or after `from` that is not shown as
/// being removed, or the length of the row if there is none.
pub open spec fn first_not_being_removed(row: Seq<CellDisplayState>, from: int) -> int
    decreases row.len() - from,
{
    if from < 0 || from >= row.len() {
        row.len() as int
    } else if row[from] != CellDisplayState::BeingRemoved {
        from
    } else {
        first_not_being_removed(row, from + 1)
    }
}

/// The animation row one frame on: the gap is one cell wider on the left,
/// and the cell that mirrors the new one about the middle of the row is
/// empty too.
pub open spec fn with_wider_gap(row: Seq<CellDisplayState>) -> Seq<CellDisplayState> {
    let left = next_gap_start(row);
    let right = row.len() - left - 1;
    row.update(left, CellDisplayState::Empty).update(right, CellDisplayState::Empty)
}

/// How a cell is shown.
pub fn cell_to_cell_display_state(src: Cell) -> (shown: CellDisplayState)
    ensures
        shown == shown_as(src.state),
{
    match src.state {
        State::Empty => CellDisplayState::Empty,
        State::Cursor => CellDisplayState::Cursor,
        State::Stack => CellDisplayState::Stack,
    }
}

/// How a row is shown.
pub fn row_to_display_row(src: &Row) -> (shown: DisplayRow)
    ensures
        shown@ == row_shown_as(row_states(src@)),
{
    let mut shown: DisplayRow = Vec::new();
    let mut x: usize = 0;
    while x < src.len()
        invariant
            x <= src.len(),
            shown@.len() == x,
            forall|j: int| 0 <= j < x ==> #[trigger] shown@[j] == shown_as(src@[j].state),
        decreases src.len() - x,
    {
        shown.push(cell_to_cell_display_state(src[x]));
        x += 1;
    }
    assert(shown@ =~= row_shown_as(row_states(src@)));
    shown
}

/// How rows are shown.
pub fn rows_to_display_rows(src: &[Row]) -> (shown: Vec<DisplayRow>)
    ensures
        display_rows(shown@) == rows_shown_as(grid_states(src@)),
{
    let mut shown: Vec<DisplayRow> = Vec::new();
    let mut y: usize = 0;
    while y < src.len()
        invariant
            y <= src.len(),
            shown@.len() == y,
            forall|j: int|
                0 <= j < y ==> (#[trigger] shown@[j])@ == row_shown_as(row_states(src@[j]@)),
        decreases src.len() - y,
    {
        shown.push(row_to_display_row(&src[y]));
        y += 1;
    }
    assert(display_rows(shown@) =~= rows_shown_as(grid_states(src@)));
    shown
}

/// Everything of the board that is shown, as it stands now.
pub fn get_board_state(board: &Board) -> (state: BoardState)
    requires
        board.wf(),
    ensures
        state.num_cols == board@.cols,
        display_rows(state.latest_visible_rows@) == rows_shown_as(
            board@.grid.subrange(NUM_HIDDEN_ROWS_ABOVE_VISIBLE_ROWS as int, board@.grid.len() as int),
        ),
        display_rows(state.visible_rows_just_before_removal_of_full_rows@) == rows_shown_as(
            board@.snapshot.subrange(
                NUM_HIDDEN_ROWS_ABOVE_VISIBLE_ROWS as int,
                board@.snapshot.len() as int,
            ),
        ),
        state.next_piece@ == PieceView::spawn(board@.queue[0]),
        state.score == board@.score,
        points_of(state.ghost_cursor_positions@) == board@.ghost_cursor().cells(),
        state.num_hidden_rows == NUM_HIDDEN_ROWS_ABOVE_VISIBLE_ROWS,
{
    let num_cols = board.num_cols();
    let visible_rows = rows_to_display_rows(board.visible_rows());
    let visible_rows_just_before_removal_of_full_rows = rows_to_display_rows(
        board.visible_rows_just_before_removal_of_full_rows(),
    );
    let next_piece = board.next_piece().clone();
    let score = board.score();
    let ghost_cursor_positions = board.ghost_cursor_positions();
    let num_hidden_rows = board.num_hidden_rows();
    BoardState {
        num_cols,
        latest_visible_rows: visible_rows,
        visible_rows_just_before_removal_of_full_rows,
        next_piece,
        score,
        ghost_cursor_positions,
        num_hidden_rows,
    }
}

/// Whether every cell of the row is shown as stack.
pub fn is_full(row: &DisplayRow) -> (full: bool)
    ensures
        full == shown_full(row@),
{
    let mut x: usize = 0;
    while x < row.len()
        invariant
            x <= row.len(),
            forall|j: int| 0 <= j < x ==> #[trigger] row@[j] == CellDisplayState::Stack,
        decreases row.len() - x,
    {
        if row[x] != CellDisplayState::Stack {
            return false;
        }
        x += 1;
    }
    true
}

/// The indices as integers.
pub open spec fn as_ints(indices: Seq<usize>) -> Seq<int> {
    Seq::new(indices.len(), |k: int| indices[k] as int)
}

/// The indices of the rows that are shown full, in rising order.
pub fn get_indices_of_full_rows(rows: &[DisplayRow]) -> (indices: Vec<usize>)
    ensures
        as_ints(indices@) == indices_of_full_rows(display_rows(rows@)),
{
    let ghost shown = display_rows(rows@);
    let mut indices: Vec<usize> = Vec::new();
    let mut y: usize = 0;
    assert(shown.take(0) =~= Seq::<Seq<CellDisplayState>>::empty());
    assert(as_ints(indices@) =~= indices_of_full_rows(shown.take(0)));
    while y < rows.len()
        invariant
            y <= rows.len(),
            shown == display_rows(rows@),
            as_ints(indices@) == indices_of_full_rows(shown.take(y as int)),
        decreases rows.len() - y,
    {
        let ghost before = indices@;
        proof {
            assert(shown.take(y + 1).drop_last() =~= shown.take(y as int));
            assert(shown.take(y + 1).last() == rows@[y as int]@);
        }
        if is_full(&rows[y]) {
            indices.push(y);
            assert(as_ints(indices@) =~= as_ints(before).push(y as int));
        }
        y += 1;
    }
    assert(shown.take(rows@.len() as int) =~= shown);
    indices
}

/// Opens the gap of the animation row by one cell on either side.
pub fn enlarge_middle_gap(animation_row: &mut DisplayRow)
    requires
        old(animation_row)@.len() > 0,
    ensures
        final(animation_row)@ == with_wider_gap(old(animation_row)@),
{
    let len = animation_row.len();
    let i1 = {
        let opt_idx_of_1st_open = position_of_first_not_being_removed(animation_row);
        if let Some(idx_of_1st_open) = opt_idx_of_1st_open {
            if idx_of_1st_open == 0 {
                0
            } else {
                idx_of_1st_open - 1
            }
        } else {
            len / 2
        }
    };
    let i2 = len - i1 - 1;
    animation_row[i1] = CellDisplayState::Empty;
    animation_row[i2] = CellDisplayState::Empty;
}

/// The index of the first cell of the row that is not shown as being removed.
pub fn position_of_first_not_being_removed(row: &DisplayRow) -> (position: Option<usize>)
    ensures
        match position {
            Some(index) => index < row@.len() && index == first_not_being_removed(row@, 0),
            None => first_not_being_removed(row@, 0) == row@.len(),
        },
{
    let mut x: usize = 0;
    while x < row.len()
        invariant
            x <= row.len(),
            first_not_being_removed(row@, 0) == first_not_being_removed(row@, x as int),
        decreases row.len() - x,
    {
        if row[x] != CellDisplayState::BeingRemoved {
            return Some(x);
        }
        x += 1;
    }
    None
}

/// The rows with the look of `look` at each of the indices and as they
/// were everywhere else.
pub open spec fn with_rows_replaced(
    rows: Seq<Seq<CellDisplayState>>,
    indices: Seq<int>,
    look: Seq<CellDisplayState>,
) -> Seq<Seq<CellDisplayState>> {
    Seq::new(
        rows.len(),
        |y: int|
            if indices.contains(y) {
                look
            } else {
                rows[y]
            },
    )
}

/// Whether every index is an index of one of `count` rows.
pub open spec fn all_below(indices: Seq<usize>, count: nat) -> bool {
    forall|k: int| 0 <= k < indices.len() ==> #[trigger] indices[k] < count
}

/// The next frame of the animation: the gap of the animation row opens by
/// one cell on either side, and every row that is being removed is shown
/// as the animation row.
pub fn make_next_frame_of_row_removal_animation(
    rows: &mut Vec<DisplayRow>,
    indices_of_full_rows_to_animate: &Vec<usize>,
    animation_row: &mut DisplayRow,
)
    requires
        old(animation_row)@.len() > 0,
        all_below(indices_of_full_rows_to_animate@, old(rows)@.len()),
    ensures
        final(animation_row)@ == with_wider_gap(old(animation_row)@),
        display_rows(final(rows)@) == with_rows_replaced(
            display_rows(old(rows)@),
            as_ints(indices_of_full_rows_to_animate@),
            final(animation_row)@,
        ),
{
    enlarge_middle_gap(animation_row);

    let ghost indices = as_ints(indices_of_full_rows_to_animate@);
    let ghost rows_at_first = display_rows(rows@);
    let mut k: usize = 0;
    assert(display_rows(rows@) =~= with_rows_replaced(
        rows_at_first,
        indices.take(0),
        animation_row@,
    ));
    while k < indices_of_full_rows_to_animate.len()
        invariant
            k <= indices_of_full_rows_to_animate.len(),
            indices == as_ints(indices_of_full_rows_to_animate@),
            rows_at_first.len() == rows@.len(),
            all_below(indices_of_full_rows_to_animate@, rows@.len() as nat),
            display_rows(rows@) == with_rows_replaced(
                rows_at_first,
                indices.take(k as int),
                animation_row@,
            ),
        decreases indices_of_full_rows_to_animate.len() - k,
    {
        let index = indices_of_full_rows_to_animate[k];
        let ghost done = indices.take(k as int);
        let ghost next = indices.take(k + 1);
        let ghost rows_before = rows@;
        let copy = animation_row.clone();
        assert(copy@ =~= animation_row@);
        rows[index] = copy;
        proof {
            assert(next =~= done.push(index as int));
            let after = display_rows(rows@);
            let expected = with_rows_replaced(rows_at_first, next, animation_row@);
            assert forall|y: int| 0 <= y < after.len() implies after[y] == expected[y] by {
                if y == index {
                    assert(next[k as int] == y);
                } else {
                    assert(rows@[y] == rows_before[y]);
                    assert(display_rows(rows_before)[y] == with_rows_replaced(
                        rows_at_first,
                        done,
                        animation_row@,
                    )[y]);
                    if done.contains(y) {
                        let j = choose|j: int| 0 <= j < done.len() && done[j] == y;
                        assert(next[j] == y);
                    } else if next.contains(y) {
                        let j = choose|j: int| 0 <= j < next.len() && next[j] == y;
                        assert(done[j] == y);
                    }
                }
            }
            assert(after =~= expected);
        }
        k += 1;
    }
    assert(indices.take(indices.len() as int) =~= indices);
}

/// The state of the animation that shows full rows going away. While
/// frames are left, the rows of `board_state` are the ones to show; each
/// frame opens the gap in the rows that are being removed a little more.
pub struct RowRemovalAnimation {
    pub drawing_row_removal_animation: bool,
    pub animation_frames_left_to_draw: i32,
    pub indices_of_full_rows_to_animate: Vec<usize>,
    pub animation_row: DisplayRow,
    pub board_state: Option<BoardState>,
    pub first_frame_post_animation: bool,
}

/// A row of `num_cols` cells that are all shown as being removed.
pub fn new_animation_row(num_cols: usize) -> (row: DisplayRow)
    ensures
        row@ == closed_row(num_cols as nat),
{
    let mut row: DisplayRow = Vec::new();
    let mut x: usize = 0;
    while x < num_cols
        invariant
            x <= num_cols,
            row@.len() == x,
            forall|j: int| 0 <= j < x ==> #[trigger] row@[j] == CellDisplayState::BeingRemoved,
        decreases num_cols - x,
    {
        row.push(CellDisplayState::BeingRemoved);
        x += 1;
    }
    assert(row@ =~= closed_row(num_cols as nat));
    row
}

/// The number of frames that the animation takes on a board of `num_cols`
/// columns: one for every two columns.
pub fn num_frames_to_animate(num_cols: usize) -> (frames: i32)
    requires
        num_cols <= i32::MAX,
    ensures
        frames == num_cols / 2,
{
    num_cols as i32 / 2
}

/// A row of `cols` cells that are all shown as being removed.
pub open spec fn closed_row(cols: nat) -> Seq<CellDisplayState> {
    Seq::new(cols, |x: int| CellDisplayState::BeingRemoved)
}

impl RowRemovalAnimation {
    /// The rows that the animation works on: the visible rows from before
    /// the removal, as far as the frames made so far have changed them.
    pub open spec fn rows(&self) -> Seq<Seq<CellDisplayState>> {
        display_rows(self.board_state->0.visible_rows_just_before_removal_of_full_rows@)
    }

    /// Whether a frame can be made: while frames are left there are rows
    /// to show, the animation row has a cell to open, and every row that
    /// is being removed is one of the rows shown.
    pub open spec fn wf(&self) -> bool {
        self.animation_frames_left_to_draw > 0 ==> {
            &&& self.board_state is Some
            &&& self.animation_row@.len() > 0
            &&& all_below(self.indices_of_full_rows_to_animate@, self.rows().len())
        }
    }

    /// No animation is running and none has run.
    pub fn new() -> (animation: Self)
        ensures
            animation.wf(),
            !animation.drawing_row_removal_animation,
            animation.animation_frames_left_to_draw == 0,
            animation.indices_of_full_rows_to_animate@.len() == 0,
            animation.animation_row@.len() == 0,
            animation.board_state is None,
            !animation.first_frame_post_animation,
    {
        RowRemovalAnimation {
            drawing_row_removal_animation: false,
            animation_frames_left_to_draw: 0,
            indices_of_full_rows_to_animate: Vec::new(),
            animation_row: Vec::new(),
            board_state: None,
            first_frame_post_animation: false,
        }
    }

    /// Whether an animation is running.
    pub fn drawing_row_removal_animation(&self) -> (drawing: bool)
        ensures
            drawing == self.drawing_row_removal_animation,
    {
        self.drawing_row_removal_animation
    }

    /// Whether an animation is to be started: rows were taken out and no
    /// animation is running yet.
    pub fn is_due(&self, row_removal_animation_is_pending: bool) -> (due: bool)
        ensures
            due == (row_removal_animation_is_pending && !self.drawing_row_removal_animation),
    {
        row_removal_animation_is_pending && !self.drawing_row_removal_animation
    }

    /// Starts an animation of `num_frames_to_animate` frames on the rows
    /// that `board_state` holds from before the removal: the rows that are
    /// shown full there are the ones that go. Frames can then be made if
    /// the board has a column.
    pub fn initialize_row_removal_animation(
        &mut self,
        board_state: BoardState,
        num_frames_to_animate: i32,
    )
        ensures
            board_state.num_cols > 0 || num_frames_to_animate <= 0 ==> final(self).wf(),
            final(self).board_state == Some(board_state),
            final(self).drawing_row_removal_animation,
            final(self).animation_frames_left_to_draw == num_frames_to_animate,
            as_ints(final(self).indices_of_full_rows_to_animate@) == indices_of_full_rows(
                final(self).rows(),
            ),
            final(self).animation_row@ == closed_row(board_state.num_cols as nat),
            final(self).first_frame_post_animation == old(self).first_frame_post_animation,
    {
        let num_cols = board_state.num_cols;
        let indices = get_indices_of_full_rows(
            board_state.visible_rows_just_before_removal_of_full_rows.as_slice(),
        );
        proof {
            let rows = display_rows(board_state.visible_rows_just_before_removal_of_full_rows@);
            lemma_indices_of_full_rows(rows);
            assert forall|k: int| 0 <= k < indices@.len() implies #[trigger] indices@[k]
                < rows.len() by {
                assert(as_ints(indices@)[k] == indices_of_full_rows(rows)[k]);
            }
        }
        self.board_state = Some(board_state);
        self.drawing_row_removal_animation = true;
        self.animation_frames_left_to_draw = num_frames_to_animate;
        self.indices_of_full_rows_to_animate = indices;
        self.animation_row = new_animation_row(num_cols);
    }

    /// Makes the next frame once the present one has been shown: the gap
    /// of the animation row opens, the rows that are being removed take
    /// its look, and one frame less is left. Nothing else of what is shown
    /// changes.
    pub fn advance_row_removal_animation(&mut self)
        requires
            old(self).wf(),
            old(self).animation_frames_left_to_draw > 0,
        ensures
            final(self).wf(),
            final(self).first_frame_post_animation,
            final(self).animation_frames_left_to_draw == old(self).animation_frames_left_to_draw
                - 1,
            final(self).drawing_row_removal_animation == old(self).drawing_row_removal_animation,
            final(self).indices_of_full_rows_to_animate == old(self).indices_of_full_rows_to_animate,
            final(self).animation_row@ == with_wider_gap(old(self).animation_row@),
            final(self).board_state is Some,
            final(self).rows() == with_rows_replaced(
                old(self).rows(),
                as_ints(old(self).indices_of_full_rows_to_animate@),
                final(self).animation_row@,
            ),
            ({
                let after = final(self).board_state->0;
                after == (BoardState {
                    visible_rows_just_before_removal_of_full_rows:
                        after.visible_rows_just_before_removal_of_full_rows,
                    ..old(self).board_state->0
                })
            }),
    {
        self.first_frame_post_animation = true;
        let mut state = self.board_state.take().unwrap();
        let ghost row_before = self.animation_row@;
        make_next_frame_of_row_removal_animation(
            &mut state.visible_rows_just_before_removal_of_full_rows,
            &self.indices_of_full_rows_to_animate,
            &mut self.animation_row,
        );
        proof {
            lemma_wider_gap(row_before);
        }
        self.board_state = Some(state);
        self.animation_frames_left_to_draw -= 1;
    }

    /// Ends the animation once no frame is left: the board is told that
    /// the removal has been shown. Tells whether this is the first frame
    /// after an animation, before which the renderer pauses once more.
    pub fn finish_row_removal_animation(&mut self, board: &mut Board) -> (pause: bool)
        ensures
            pause == old(self).first_frame_post_animation,
            *final(self) == (RowRemovalAnimation {
                drawing_row_removal_animation: false,
                first_frame_post_animation: false,
                ..*old(self)
            }),
            old(self).wf() ==> final(self).wf(),
            final(board)@ == (BoardView { clear_pending: false, ..old(board)@ }),
            old(board).wf() ==> final(board).wf(),
    {
        board.set_row_removal_animation_is_pending_to_false();
        self.drawing_row_removal_animation = false;
        let pause = self.first_frame_post_animation;
        self.first_frame_post_animation = false;
        pause
    }
}

/// The first cell that is not shown as being removed is found at or after
/// the place where the search starts; no cell between the two is open, and
/// the cell found is, unless the row ends first.
pub proof fn lemma_first_not_being_removed(row: Seq<CellDisplayState>, from: int)
    requires
        0 <= from <= row.len(),
    ensures
        from <= first_not_being_removed(row, from) <= row.len(),
        forall|x: int|
            from <= x < first_not_being_removed(row, from) ==> #[trigger] row[x]
                == CellDisplayState::BeingRemoved,
        first_not_being_removed(row, from) < row.len() ==> row[first_not_being_removed(row, from)]
            != CellDisplayState::BeingRemoved,
    decreases row.len() - from,
{
    if from < row.len() && row[from] == CellDisplayState::BeingRemoved {
        lemma_first_not_being_removed(row, from + 1);
    }
}

/// The gap opens at cells of the row: a frame changes no more than two
/// cells, one the mirror image of the other, and keeps the length of the
/// row.
pub proof fn lemma_wider_gap(row: Seq<CellDisplayState>)
    requires
        row.len() > 0,
    ensures
        0 <= next_gap_start(row) < row.len(),
        with_wider_gap(row).len() == row.len(),
        forall|x: int|
            0 <= x < row.len() ==> #[trigger] with_wider_gap(row)[x] == (if x == next_gap_start(
                row,
            ) || x == row.len() - next_gap_start(row) - 1 {
                CellDisplayState::Empty
            } else {
                row[x]
            }),
{
    lemma_first_not_being_removed(row, 0);
}

/// The indices of the full rows are indices of rows.
pub proof fn lemma_indices_of_full_rows(rows: Seq<Seq<CellDisplayState>>)
    ensures
        indices_of_full_rows(rows).len() <= rows.len(),
        forall|k: int|
            0 <= k < indices_of_full_rows(rows).len() ==> 0 <= #[trigger] indices_of_full_rows(
                rows,
            )[k] < rows.len() && shown_full(rows[indices_of_full_rows(rows)[k]]),
        forall|k: int, l: int|
            0 <= k < l < indices_of_full_rows(rows).len() ==> #[trigger] indices_of_full_rows(
                rows,
            )[k] < #[trigger] indices_of_full_rows(rows)[l],
        forall|y: int|
            0 <= y < rows.len() && shown_full(#[trigger] rows[y]) ==> indices_of_full_rows(
                rows,
            ).contains(y),
    decreases rows.len(),
{
    if rows.len() > 0 {
        let rest = rows.drop_last();
        lemma_indices_of_full_rows(rest);
        let indices = indices_of_full_rows(rows);
        assert forall|k: int| 0 <= k < indices.len() implies 0 <= #[trigger] indices[k]
            < rows.len() && shown_full(rows[indices[k]]) by {
            if k < indices_of_full_rows(rest).len() {
                assert(indices[k] == indices_of_full_rows(rest)[k]);
                assert(rest[indices[k]] == rows[indices[k]]);
            }
        }
        assert forall|k: int, l: int| 0 <= k < l < indices.len() implies #[trigger] indices[k]
            < #[trigger] indices[l] by {
            assert(indices[k] == indices_of_full_rows(rest)[k]);
            if l < indices_of_full_rows(rest).len() {
                assert(indices[l] == indices_of_full_rows(rest)[l]);
            }
        }
        assert forall|y: int| 0 <= y < rows.len() && shown_full(
            #[trigger] rows[y],
        ) implies indices.contains(y) by {
            if y < rest.len() {
                assert(rest[y] == rows[y]);
                let k = choose|k: int|
                    0 <= k < indices_of_full_rows(rest).len() && indices_of_full_rows(rest)[k]
                        == y;
                assert(indices[k] == y);
            } else {
                assert(rows[y] == rows.last());
                assert(indices[indices.len() - 1] == y);
            }
        }
    }
}

} // verus!
