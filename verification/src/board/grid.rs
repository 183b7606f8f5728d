//! The grid as a rectangle of cell states: painting cells, full rows and
//! their removal, and the height of the stack.

use vstd::prelude::*;

use super::cell::{Cell, State};
use super::cursor::Cursor;
use super::position::{points_of, Point, Position};

verus! {

/// One row of the grid.
pub type Row = Vec<Cell>;

/// The states that a row of cells holds, from left to right.
pub open spec fn row_states(row: Seq<Cell>) -> Seq<State> {
    Seq::new(row.len(), |x: int| row[x].state)
}

/// The states that the rows hold, from the top row down.
pub open spec fn grid_states(rows: Seq<Row>) -> Seq<Seq<State>> {
    Seq::new(rows.len(), |y: int| row_states(rows[y]@))
}

/// Whether every row of the grid has `cols` cells.
pub open spec fn is_rectangular(grid: Seq<Seq<State>>, cols: nat) -> bool {
    forall|y: int| 0 <= y < grid.len() ==> (#[trigger] grid[y]).len() == cols
}

/// Whether the point is a cell of the grid.
pub open spec fn in_grid(grid: Seq<Seq<State>>, p: Point) -> bool {
    0 <= p.y < grid.len() && 0 <= p.x < grid[p.y].len()
}

/// Whether every one of the points is a cell of the grid.
pub open spec fn all_in_grid(grid: Seq<Seq<State>>, cells: Seq<Point>) -> bool {
    forall|i: int| 0 <= i < cells.len() ==> in_grid(grid, #[trigger] cells[i])
}

/// The grid with the given state in each of `cells` and every other cell as it was.
pub open spec fn painted(grid: Seq<Seq<State>>, cells: Seq<Point>, state: State) -> Seq<
    Seq<State>,
> {
    Seq::new(
        grid.len(),
        |y: int|
            Seq::new(
                grid[y].len(),
                |x: int|
                    if cells.contains(Point { x, y }) {
                        state
                    } else {
                        grid[y][x]
                    },
            ),
    )
}

/// A row is full when every cell of it belongs to the stack.
pub open spec fn row_is_full(row: Seq<State>) -> bool {
    forall|x: int| 0 <= x < row.len() ==> #[trigger] row[x] == State::Stack
}

/// Whether some cell of the row belongs to the stack.
pub open spec fn row_has_stack(row: Seq<State>) -> bool {
    exists|x: int| 0 <= x < row.len() && #[trigger] row[x] == State::Stack
}

/// Whether no row of the grid is full.
pub open spec fn has_no_full_row(grid: Seq<Seq<State>>) -> bool {
    forall|y: int| 0 <= y < grid.len() ==> !row_is_full(#[trigger] grid[y])
}

/// `count` rows of `cols` empty cells.
pub open spec fn empty_rows(count: nat, cols: nat) -> Seq<Seq<State>> {
    Seq::new(count, |y: int| Seq::new(cols, |x: int| State::Empty))
}

/// The rows of the grid that are not full, in their order.
pub open spec fn without_full_rows(grid: Seq<Seq<State>>) -> Seq<Seq<State>> {
    grid.filter(|row: Seq<State>| !row_is_full(row))
}

/// The number of full rows of the grid.
pub open spec fn full_row_count(grid: Seq<Seq<State>>) -> nat {
    grid.filter(|row: Seq<State>| row_is_full(row)).len()
}

/// The grid after its full rows are taken out and as many empty rows are
/// put in at the top.
pub open spec fn cleared(grid: Seq<Seq<State>>, cols: nat) -> Seq<Seq<State>> {
    empty_rows(full_row_count(grid), cols) + without_full_rows(grid)
}

/// The index of the first row at or below `from` that holds a stack cell,
/// or the number of rows if there is none.
pub open spec fn stack_top_from(grid: Seq<Seq<State>>, from: int) -> int
    decreases grid.len() - from,
{
    if from < 0 || from >= grid.len() {
        grid.len() as int
    } else if row_has_stack(grid[from]) {
        from
    } else {
        stack_top_from(grid, from + 1)
    }
}

/// The index of the topmost row that holds a stack cell, or the number of
/// rows if no row does.
pub open spec fn topmost_stack_row(grid: Seq<Seq<State>>) -> int {
    stack_top_from(grid, 0)
}

/// The number of rows from the topmost row that holds a stack cell down to
/// the floor.
pub open spec fn stack_height(grid: Seq<Seq<State>>) -> int {
    grid.len() - topmost_stack_row(grid)
}

/// The points awarded for taking out `rows_removed` rows at once.
pub open spec fn clear_points(rows_removed: nat) -> int {
    if rows_removed == 1 {
        100
    } else if rows_removed == 2 {
        300
    } else if rows_removed == 3 {
        500
    } else if rows_removed == 4 {
        800
    } else {
        0
    }
}

/// The points awarded for taking out `num_rows_removed` rows at once: 100,
/// 300, 500 and 800 for one to four rows, nothing otherwise.
pub fn get_points(num_rows_removed: usize) -> (points: i32)
    ensures
        points == clear_points(num_rows_removed as nat),
{
    match num_rows_removed {
        1 => 100,
        2 => 300,
        3 => 500,
        4 => 800,
        _ => 0,
    }
}

/// Sets the state of one cell.
pub fn set_state(cell: &mut Cell, state: State)
    ensures
        final(cell).state == state,
{
    cell.state = state;
}

/// Whether any cell of the row is not part of the stack.
pub fn is_not_a_full_row(row: &Row) -> (not_full: bool)
    ensures
        not_full == !row_is_full(row_states(row@)),
{
    !is_a_full_row(row)
}

/// Whether every cell of the row is part of the stack.
pub fn is_a_full_row(row: &Row) -> (full: bool)
    ensures
        full == row_is_full(row_states(row@)),
{
    let mut x: usize = 0;
    while x < row.len()
        invariant
            x <= row.len(),
            forall|j: int| 0 <= j < x ==> #[trigger] row_states(row@)[j] == State::Stack,
        decreases row.len() - x,
    {
        if row[x].state != State::Stack {
            assert(row_states(row@)[x as int] != State::Stack);
            return false;
        }
        x += 1;
    }
    true
}

/// Whether some cell of the row is part of the stack.
pub fn contains_any_stack_cell(row: &Row) -> (any: bool)
    ensures
        any == row_has_stack(row_states(row@)),
{
    let mut x: usize = 0;
    while x < row.len()
        invariant
            x <= row.len(),
            forall|j: int| 0 <= j < x ==> #[trigger] row_states(row@)[j] != State::Stack,
        decreases row.len() - x,
    {
        if row[x].state == State::Stack {
            assert(row_states(row@)[x as int] == State::Stack);
            return true;
        }
        x += 1;
    }
    false
}

/// Moves every position one row down.
pub fn increment_ys(positions: &mut [Position])
    requires
        forall|i: int| 0 <= i < old(positions)@.len() ==> (#[trigger] old(positions)@[i]).y < i32::MAX,
    ensures
        final(positions)@.len() == old(positions)@.len(),
        forall|i: int|
            0 <= i < old(positions)@.len() ==> (#[trigger] final(positions)@[i])@ == old(
                positions,
            )@[i]@.shifted(0, 1),
{
    let mut i: usize = 0;
    while i < positions.len()
        invariant
            i <= positions.len(),
            positions@.len() == old(positions)@.len(),
            forall|j: int|
                0 <= j < old(positions)@.len() ==> (#[trigger] old(positions)@[j]).y < i32::MAX,
            forall|j: int|
                0 <= j < i ==> (#[trigger] positions@[j])@ == old(positions)@[j]@.shifted(0, 1),
            forall|j: int| i <= j < positions@.len() ==> positions@[j] == old(positions)@[j],
        decreases positions.len() - i,
    {
        let pos = positions[i];
        positions[i] = Position { x: pos.x, y: pos.y + 1 };
        i += 1;
    }
}

/// Gives `state` to every cell that the cursor covers.
pub fn set_state_of_cells_at_cursor(cursor: &Cursor, rows: &mut [Row], state: State)
    requires
        cursor@.cells_representable(),
        all_in_grid(grid_states(old(rows)@), cursor@.cells()),
    ensures
        grid_states(final(rows)@) == painted(grid_states(old(rows)@), cursor@.cells(), state),
{
    let ghost grid = grid_states(rows@);
    let ghost cells = cursor@.cells();
    let positions = cursor.get_point_positions();
    assert(grid =~~= painted(grid, cells.take(0), state));
    let mut i: usize = 0;
    while i < positions.len()
        invariant
            i <= positions.len(),
            points_of(positions@) == cells,
            all_in_grid(grid, cells),
            rows@.len() == grid.len(),
            forall|y: int| 0 <= y < grid.len() ==> (#[trigger] rows@[y])@.len() == grid[y].len(),
            grid_states(rows@) == painted(grid, cells.take(i as int), state),
        decreases positions.len() - i,
    {
        let position = positions[i];
        assert(position@ == cells[i as int]);
        assert(in_grid(grid, cells[i as int]));
        let ghost before = grid_states(rows@);
        let ghost rows_before = rows@;
        set_state(&mut rows[position.y as usize][position.x as usize], state);
        proof {
            let after = grid_states(rows@);
            let so_far = cells.take(i as int);
            let next = cells.take(i as int + 1);
            assert(next =~= so_far.push(cells[i as int]));
            assert forall|y: int| 0 <= y < grid.len() implies (#[trigger] rows@[y])@.len()
                == grid[y].len() by {
                assert(rows_before[y]@.len() == grid[y].len());
            }
            assert forall|y: int, x: int|
                0 <= y < grid.len() && 0 <= x < grid[y].len() implies after[y][x] == painted(
                grid,
                next,
                state,
            )[y][x] by {
                let p = Point { x, y };
                assert(rows_before[y]@.len() == grid[y].len());
                if p == cells[i as int] {
                    assert(next[i as int] == p);
                } else {
                    assert(before[y][x] == after[y][x]);
                    if so_far.contains(p) {
                        let k = choose|k: int| 0 <= k < so_far.len() && so_far[k] == p;
                        assert(next[k] == p);
                    } else {
                        if next.contains(p) {
                            let k = choose|k: int| 0 <= k < next.len() && next[k] == p;
                            assert(so_far[k] == p);
                        }
                    }
                }
            }
            assert(after =~~= painted(grid, next, state));
        }
        i += 1;
    }
    assert(cells.take(positions.len() as int) =~= cells);
}

/// Painting keeps the number of rows and the length of every row.
pub proof fn lemma_painted_shape(grid: Seq<Seq<State>>, cells: Seq<Point>, state: State)
    ensures
        painted(grid, cells, state).len() == grid.len(),
        forall|y: int|
            0 <= y < grid.len() ==> (#[trigger] painted(grid, cells, state)[y]).len()
                == grid[y].len(),
        forall|cols: nat|
            is_rectangular(grid, cols) ==> #[trigger] is_rectangular(
                painted(grid, cells, state),
                cols,
            ),
        forall|others: Seq<Point>|
            all_in_grid(grid, others) ==> #[trigger] all_in_grid(
                painted(grid, cells, state),
                others,
            ),
{
    let after = painted(grid, cells, state);
    assert forall|cols: nat| is_rectangular(grid, cols) implies #[trigger] is_rectangular(
        after,
        cols,
    ) by {
        assert forall|y: int| 0 <= y < after.len() implies (#[trigger] after[y]).len() == cols by {
            assert(grid[y].len() == cols);
        }
    }
    assert forall|others: Seq<Point>| all_in_grid(grid, others) implies #[trigger] all_in_grid(
        after,
        others,
    ) by {
        assert forall|i: int| 0 <= i < others.len() implies in_grid(after, #[trigger] others[i]) by {
            assert(in_grid(grid, others[i]));
        }
    }
}

/// Every row of the grid is either full or kept: the full rows and the rows
/// that are not full add up to the grid. The kept rows are rows of the grid,
/// and none of them is full.
pub proof fn lemma_full_rows_partition(grid: Seq<Seq<State>>)
    ensures
        full_row_count(grid) + without_full_rows(grid).len() == grid.len(),
        forall|i: int|
            0 <= i < without_full_rows(grid).len() ==> grid.contains(
                #[trigger] without_full_rows(grid)[i],
            ) && !row_is_full(without_full_rows(grid)[i]),
    decreases grid.len(),
{
    reveal(Seq::filter);
    if grid.len() > 0 {
        let rest = grid.drop_last();
        lemma_full_rows_partition(rest);
        let kept = without_full_rows(grid);
        assert forall|i: int| 0 <= i < kept.len() implies grid.contains(#[trigger] kept[i])
            && !row_is_full(kept[i]) by {
            if i < without_full_rows(rest).len() {
                let row = without_full_rows(rest)[i];
                assert(rest.contains(row));
                let j = choose|j: int| 0 <= j < rest.len() && rest[j] == row;
                assert(grid[j] == row);
            } else {
                assert(kept[i] == grid.last());
                assert(grid[grid.len() - 1] == grid.last());
            }
        }
    }
}

/// Clearing keeps the shape of a rectangular grid; every row of the result
/// is a row of empty cells or a row of the grid that is not full.
pub proof fn lemma_cleared_shape(grid: Seq<Seq<State>>, cols: nat)
    requires
        is_rectangular(grid, cols),
    ensures
        cleared(grid, cols).len() == grid.len(),
        is_rectangular(cleared(grid, cols), cols),
        forall|y: int|
            0 <= y < grid.len() ==> (#[trigger] cleared(grid, cols)[y] == empty_rows(1, cols)[0]
                || (grid.contains(cleared(grid, cols)[y]) && !row_is_full(
                cleared(grid, cols)[y],
            ))),
{
    lemma_full_rows_partition(grid);
    let count = full_row_count(grid);
    let kept = without_full_rows(grid);
    let after = cleared(grid, cols);
    assert forall|y: int| 0 <= y < grid.len() implies (#[trigger] after[y]).len() == cols && (
    after[y] == empty_rows(1, cols)[0] || (grid.contains(after[y]) && !row_is_full(after[y]))) by {
        if y < count {
            assert(after[y] == empty_rows(count, cols)[y]);
            assert(after[y] =~= empty_rows(1, cols)[0]);
        } else {
            assert(after[y] == kept[y - count]);
            assert(grid.contains(kept[y - count]));
            let j = choose|j: int| 0 <= j < grid.len() && grid[j] == kept[y - count];
            assert(grid[j].len() == cols);
        }
    }
}

/// Painting cells as empty or as the cursor's makes no row full.
pub proof fn lemma_painting_fills_no_row(grid: Seq<Seq<State>>, cells: Seq<Point>, state: State)
    requires
        has_no_full_row(grid),
        state != State::Stack,
    ensures
        has_no_full_row(painted(grid, cells, state)),
{
    let after = painted(grid, cells, state);
    assert forall|y: int| 0 <= y < after.len() implies !row_is_full(#[trigger] after[y]) by {
        if row_is_full(after[y]) {
            assert forall|x: int| 0 <= x < grid[y].len() implies #[trigger] grid[y][x]
                == State::Stack by {
                assert(after[y][x] == State::Stack);
            }
            assert(row_is_full(grid[y]));
        }
    }
}

/// Once the full rows of a grid of one column or more are gone, no row is full.
pub proof fn lemma_cleared_has_no_full_row(grid: Seq<Seq<State>>, cols: nat)
    requires
        is_rectangular(grid, cols),
        cols > 0,
    ensures
        has_no_full_row(cleared(grid, cols)),
{
    lemma_cleared_shape(grid, cols);
    let after = cleared(grid, cols);
    assert forall|y: int| 0 <= y < after.len() implies !row_is_full(#[trigger] after[y]) by {
        if after[y] == empty_rows(1, cols)[0] {
            assert(after[y][0] == State::Empty);
        }
    }
}

/// If every full row of the grid lies among `span` rows in a run, the
/// grid has no more than `span` full rows.
pub proof fn lemma_full_rows_in_a_run(grid: Seq<Seq<State>>, first: int, span: nat)
    requires
        forall|y: int|
            0 <= y < grid.len() && row_is_full(#[trigger] grid[y]) ==> first <= y < first + span,
    ensures
        full_row_count(grid) <= span,
        full_row_count(grid) <= if grid.len() <= first {
            0
        } else {
            grid.len() - first
        },
    decreases grid.len(),
{
    reveal(Seq::filter);
    if grid.len() > 0 {
        let rest = grid.drop_last();
        assert forall|y: int| 0 <= y < rest.len() && row_is_full(
            #[trigger] rest[y],
        ) implies first <= y < first + span by {
            assert(rest[y] == grid[y]);
        }
        lemma_full_rows_in_a_run(rest, first, span);
        if row_is_full(grid.last()) {
            assert(grid[grid.len() - 1] == grid.last());
        }
    }
}

} // verus!
