//! The mathematical model: a generation as a sequence of rows of cell states, and the
//! transition from one generation to the next.

use vstd::prelude::*;

verus! {

/// The cell states of one generation: one inner sequence for each row, from the top
/// row down, holding that row's cells from left to right. `true` is alive.
pub type Cells = Seq<Seq<bool>>;

/// The number of rows of `cells`.
pub open spec fn row_count(cells: Cells) -> nat {
    cells.len()
}

/// The number of columns of `cells`, read off its first row: 0 where it has no row.
pub open spec fn col_count(cells: Cells) -> nat {
    if cells.len() == 0 {
        0
    } else {
        cells[0].len()
    }
}

/// `cells` has exactly `rows` rows, each of exactly `cols` cells.
pub open spec fn is_grid(cells: Cells, rows: nat, cols: nat) -> bool {
    &&& cells.len() == rows
    &&& forall|row: int| 0 <= row < rows ==> (#[trigger] cells[row]).len() == cols
}

/// `(row, col)` names a cell of `cells`.
pub open spec fn in_bounds(cells: Cells, row: int, col: int) -> bool {
    0 <= row < cells.len() && 0 <= col < cells[row].len()
}

/// The cell at `(row, col)` is alive. A coordinate outside the grid is dead.
pub open spec fn alive_at(cells: Cells, row: int, col: int) -> bool {
    in_bounds(cells, row, col) && cells[row][col]
}

/// 1 for a live cell at `(row, col)`, 0 for a dead one or for none.
pub open spec fn live_count(cells: Cells, row: int, col: int) -> nat {
    if alive_at(cells, row, col) {
        1
    } else {
        0
    }
}

/// How many of the eight coordinates that touch `(row, col)`, by an edge or by a
/// corner, hold a live cell. Coordinates beyond the edge of the grid count as dead.
pub open spec fn live_neighbors(cells: Cells, row: int, col: int) -> nat {
    live_count(cells, row - 1, col - 1) + live_count(cells, row - 1, col)
        + live_count(cells, row - 1, col + 1) + live_count(cells, row, col - 1)
        + live_count(cells, row, col + 1) + live_count(cells, row + 1, col - 1)
        + live_count(cells, row + 1, col) + live_count(cells, row + 1, col + 1)
}

/// The transition rule: a live cell lives on with two or three live neighbors, a
/// dead cell comes alive with exactly three, and every other cell is dead next.
pub open spec fn next_alive(alive: bool, neighbors: nat) -> bool {
    if alive {
        neighbors == 2 || neighbors == 3
    } else {
        neighbors == 3
    }
}

/// The generation that follows `cells`: the same shape, each cell decided by the
/// transition rule from its own state and its live neighbors in `cells`.
pub open spec fn next_generation(cells: Cells) -> Cells {
    Seq::new(
        cells.len(),
        |row: int|
            Seq::new(
                cells[row].len(),
                |col: int| next_alive(cells[row][col], live_neighbors(cells, row, col)),
            ),
    )
}

/// `cells` with the cell at `(row, col)` set to `alive`, every other cell as it was.
pub open spec fn with_cell(cells: Cells, row: int, col: int, alive: bool) -> Cells {
    cells.update(row, cells[row].update(col, alive))
}

/// The grid of `rows` by `cols` cells in which every cell is dead.
pub open spec fn dead_grid(rows: nat, cols: nat) -> Cells {
    Seq::new(rows, |row: int| Seq::new(cols, |col: int| false))
}

/// No cell of `cells` is alive.
pub open spec fn all_dead(cells: Cells) -> bool {
    forall|row: int, col: int| !alive_at(cells, row, col)
}

/// `(row, col)` is one of the coordinates in `list`.
pub open spec fn listed(list: Seq<(usize, usize)>, row: int, col: int) -> bool {
    exists|i: int| 0 <= i < list.len() && (#[trigger] list[i]).0 == row && list[i].1 == col
}

/// Every coordinate in `list` names a cell of `cells`.
pub open spec fn all_in_bounds(cells: Cells, list: Seq<(usize, usize)>) -> bool {
    forall|i: int|
        0 <= i < list.len() ==> in_bounds(cells, (#[trigger] list[i]).0 as int, list[i].1 as int)
}

/// `cells` with every cell that `list` names alive, every other cell as it was.
pub open spec fn seeded(cells: Cells, list: Seq<(usize, usize)>) -> Cells {
    Seq::new(
        cells.len(),
        |row: int|
            Seq::new(cells[row].len(), |col: int| cells[row][col] || listed(list, row, col)),
    )
}

/// `a` comes before `b` when the grid is read row by row from the top, each row from
/// the left.
pub open spec fn row_major_before(a: (usize, usize), b: (usize, usize)) -> bool {
    a.0 < b.0 || (a.0 == b.0 && a.1 < b.1)
}

/// Each coordinate in `list` comes before all that follow it, so none occurs twice.
pub open spec fn in_row_major_order(list: Seq<(usize, usize)>) -> bool {
    forall|i: int, j: int|
        0 <= i < j < list.len() ==> row_major_before(#[trigger] list[i], #[trigger] list[j])
}

/// `list` holds the coordinates of the live cells of `cells`: nothing else, all of
/// them, each once, in row-major order.
pub open spec fn lists_live_cells(list: Seq<(usize, usize)>, cells: Cells) -> bool {
    &&& forall|i: int|
        0 <= i < list.len() ==> alive_at(cells, (#[trigger] list[i]).0 as int, list[i].1 as int)
    &&& forall|row: int, col: int| #[trigger]
        alive_at(cells, row, col) ==> listed(list, row, col)
    &&& in_row_major_order(list)
}

} // verus!
