//! The executable grid and the game that advances it, one generation at a time.

use vstd::prelude::*;
use vstd::std_specs::cmp::PartialEqSpecImpl;
use crate::error::OutOfBounds;
use crate::model::{
    Cells, alive_at, all_dead, all_in_bounds, col_count, dead_grid, in_bounds, in_row_major_order,
    is_grid, listed, lists_live_cells, live_neighbors, next_alive, next_generation, row_count,
    seeded, with_cell,
};

verus! {

/// The cell states as stored: one vector for each row.
pub type Grid = Vec<Vec<bool>>;

/// A grid of fixed size. Both dimensions are positive and never change.
#[derive(Debug)]
pub struct Board {
    rows: usize,
    cols: usize,
    grid: Grid,
}

impl View for Board {
    type V = Cells;

    closed spec fn view(&self) -> Cells {
        self.grid.deep_view()
    }
}

impl Board {
    #[verifier::type_invariant]
    spec fn well_formed(self) -> bool {
        &&& self.rows > 0
        &&& self.cols > 0
        &&& is_grid(self.grid.deep_view(), self.rows as nat, self.cols as nat)
    }

    /// A grid of `rows` by `cols` cells, all of them dead.
    pub fn new(rows: usize, cols: usize) -> (board: Board)
        requires
            rows > 0,
            cols > 0,
        ensures
            board@ == dead_grid(rows as nat, cols as nat),
            all_dead(board@),
    {
        let board = Board { rows, cols, grid: vec![vec![false; cols]; rows] };
        assert(board.grid.deep_view() =~~= dead_grid(rows as nat, cols as nat));
        board
    }

    /// The number of rows.
    pub fn rows(&self) -> (rows: usize)
        ensures
            rows > 0,
            rows == row_count(self@),
            is_grid(self@, row_count(self@), col_count(self@)),
    {
        proof {
            use_type_invariant(self);
        }
        self.rows
    }

    /// The number of columns, which is the length of every row.
    pub fn cols(&self) -> (cols: usize)
        ensures
            cols > 0,
            cols == col_count(self@),
            is_grid(self@, row_count(self@), col_count(self@)),
    {
        proof {
            use_type_invariant(self);
        }
        self.cols
    }

    /// The state of the cell at `(row, col)`.
    pub fn get_index(&self, row: usize, col: usize) -> (alive: bool)
        requires
            in_bounds(self@, row as int, col as int),
        ensures
            alive == self@[row as int][col as int],
    {
        self.grid[row][col]
    }

    /// Sets the cell at `(row, col)` to `is_life` and leaves every other cell as it is.
    pub fn set_index(&mut self, row: usize, col: usize, is_life: bool)
        requires
            in_bounds(old(self)@, row as int, col as int),
        ensures
            final(self)@ == with_cell(old(self)@, row as int, col as int, is_life),
    {
        proof {
            use_type_invariant(&*self);
        }
        put(&mut self.grid, row, col, is_life);
        assert(self.grid.deep_view() =~~= with_cell(
            old(self).grid.deep_view(),
            row as int,
            col as int,
            is_life,
        ));
    }

    /// The state of the cell at `(row, col)`, or the error for a coordinate outside
    /// the grid.
    pub fn is_alive(&self, row: usize, col: usize) -> (result: Result<bool, OutOfBounds>)
        ensures
            match result {
                Ok(alive) => in_bounds(self@, row as int, col as int) && alive
                    == self@[row as int][col as int],
                Err(e) => !in_bounds(self@, row as int, col as int) && e.row == row && e.col
                    == col,
            },
    {
        proof {
            use_type_invariant(self);
        }
        if row < self.rows && col < self.cols {
            Ok(self.get_index(row, col))
        } else {
            Err(OutOfBounds { row, col })
        }
    }

    /// Sets the cell at `(row, col)` to `alive`, or leaves the grid as it is and
    /// returns the error for a coordinate outside it.
    pub fn set_alive(&mut self, row: usize, col: usize, alive: bool) -> (result: Result<
        (),
        OutOfBounds,
    >)
        ensures
            match result {
                Ok(()) => in_bounds(old(self)@, row as int, col as int) && final(self)@
                    == with_cell(old(self)@, row as int, col as int, alive),
                Err(e) => !in_bounds(old(self)@, row as int, col as int) && final(self)@ == old(
                    self,
                )@ && e.row == row && e.col == col,
            },
    {
        proof {
            use_type_invariant(&*self);
        }
        if row < self.rows && col < self.cols {
            self.set_index(row, col, alive);
            Ok(())
        } else {
            Err(OutOfBounds { row, col })
        }
    }

    /// How many of the eight coordinates around `(row, col)` hold a live cell. A
    /// coordinate beyond the edge of the grid holds none, so a cell on an edge has at
    /// most five live neighbors and a cell in a corner at most three.
    pub fn get_neighbor_count(&self, row: usize, col: usize) -> (count: usize)
        ensures
            count == live_neighbors(self@, row as int, col as int),
            count <= 8,
    {
        proof {
            use_type_invariant(self);
        }
        let mut count: usize = 0;

        // NW
        if row > 0 && col > 0 && self.lives(row - 1, col - 1) {
            count += 1;
        }
        // N
        if row > 0 && self.lives(row - 1, col) {
            count += 1;
        }
        // NE
        if row > 0 && col < self.cols - 1 && self.lives(row - 1, col + 1) {
            count += 1;
        }
        // W
        if col > 0 && self.lives(row, col - 1) {
            count += 1;
        }
        // E
        if col < self.cols - 1 && self.lives(row, col + 1) {
            count += 1;
        }
        // SW
        if row < self.rows - 1 && col > 0 && self.lives(row + 1, col - 1) {
            count += 1;
        }
        // S
        if row < self.rows - 1 && self.lives(row + 1, col) {
            count += 1;
        }
        // SE
        if row < self.rows - 1 && col < self.cols - 1 && self.lives(row + 1, col + 1) {
            count += 1;
        }
        count
    }

    /// Whether `(row, col)` names a cell of the grid and that cell is alive.
    fn lives(&self, row: usize, col: usize) -> (alive: bool)
        ensures
            alive == alive_at(self@, row as int, col as int),
    {
        proof {
            use_type_invariant(self);
        }
        row < self.rows && col < self.cols && self.get_index(row, col)
    }

    /// Brings every cell that `live` names to life. Where a coordinate names no cell
    /// of the grid, the grid is left as it is and the error holds the first such
    /// coordinate.
    pub fn seed(&mut self, live: &[(usize, usize)]) -> (result: Result<(), OutOfBounds>)
        ensures
            match result {
                Ok(()) => all_in_bounds(old(self)@, live@) && final(self)@ == seeded(
                    old(self)@,
                    live@,
                ),
                Err(e) => final(self)@ == old(self)@ && exists|i: int|
                    0 <= i < live@.len() && all_in_bounds(old(self)@, live@.take(i)) && !in_bounds(
                        old(self)@,
                        live@[i].0 as int,
                        live@[i].1 as int,
                    ) && e.row == (#[trigger] live@[i]).0 && e.col == live@[i].1,
            },
    {
        let mut checked: usize = 0;
        while checked < live.len()
            invariant
                checked <= live@.len(),
                all_in_bounds(self@, live@.take(checked as int)),
            decreases live@.len() - checked,
        {
            proof {
                use_type_invariant(&*self);
            }
            let (row, col) = live[checked];
            if row >= self.rows || col >= self.cols {
                return Err(OutOfBounds { row, col });
            }
            assert(live@.take(checked + 1) =~= live@.take(checked as int).push(
                live@[checked as int],
            ));
            checked += 1;
        }
        assert(live@.take(checked as int) =~= live@);
        assert(self@ =~~= seeded(self@, live@.take(0)));
        let mut done: usize = 0;
        while done < live.len()
            invariant
                done <= live@.len(),
                all_in_bounds(old(self)@, live@),
                self@ == seeded(old(self)@, live@.take(done as int)),
            decreases live@.len() - done,
        {
            let (row, col) = live[done];
            self.set_index(row, col, true);
            proof {
                let prefix = live@.take(done as int);
                let longer = live@.take(done + 1);
                assert forall|r: int, c: int|
                    listed(longer, r, c) == (listed(prefix, r, c) || (r == row && c == col)) by {
                    if listed(prefix, r, c) {
                        let i = choose|i: int|
                            0 <= i < prefix.len() && (#[trigger] prefix[i]).0 == r && prefix[i].1
                                == c;
                        assert(longer[i] == prefix[i]);
                    }
                    if r == row && c == col {
                        assert(longer[done as int] == (row, col));
                    }
                }
                assert(self@ =~~= seeded(old(self)@, longer));
            }
            done += 1;
        }
        Ok(())
    }

    /// The coordinates of the live cells, row by row from the top, each row from the
    /// left.
    pub fn live_cells(&self) -> (cells: Vec<(usize, usize)>)
        ensures
            lists_live_cells(cells@, self@),
    {
        let mut cells: Vec<(usize, usize)> = Vec::new();
        let mut row: usize = 0;
        while row < self.rows()
            invariant
                row <= self@.len(),
                forall|i: int|
                    0 <= i < cells@.len() ==> alive_at(
                        self@,
                        (#[trigger] cells@[i]).0 as int,
                        cells@[i].1 as int,
                    ) && cells@[i].0 < row,
                forall|r: int, c: int| #[trigger]
                    alive_at(self@, r, c) && r < row ==> listed(cells@, r, c),
                in_row_major_order(cells@),
            decreases self@.len() - row,
        {
            let mut col: usize = 0;
            while col < self.cols()
                invariant
                    row < self@.len(),
                    col <= self@[row as int].len(),
                    forall|i: int|
                        0 <= i < cells@.len() ==> alive_at(
                            self@,
                            (#[trigger] cells@[i]).0 as int,
                            cells@[i].1 as int,
                        ) && (cells@[i].0 < row || (cells@[i].0 == row && cells@[i].1 < col)),
                    forall|r: int, c: int| #[trigger]
                        alive_at(self@, r, c) && (r < row || (r == row && c < col)) ==> listed(
                            cells@,
                            r,
                            c,
                        ),
                    in_row_major_order(cells@),
                decreases self@[row as int].len() - col,
            {
                let ghost before = cells@;
                if self.get_index(row, col) {
                    cells.push((row, col));
                }
                proof {
                    assert forall|r: int, c: int| #[trigger]
                        alive_at(self@, r, c) && (r < row || (r == row && c < col + 1))
                    implies listed(cells@, r, c) by {
                        if r == row && c == col {
                            assert(cells@[cells@.len() - 1] == (row, col));
                        } else {
                            let i = choose|i: int|
                                0 <= i < before.len() && (#[trigger] before[i]).0 == r
                                    && before[i].1 == c;
                            assert(cells@[i] == before[i]);
                        }
                    }
                }
                col += 1;
            }
            row += 1;
        }
        cells
    }
}

impl Clone for Board {
    /// A second grid with the same cells.
    fn clone(&self) -> (copy: Board)
        ensures
            copy@ == self@,
    {
        proof {
            use_type_invariant(self);
        }
        Board { rows: self.rows, cols: self.cols, grid: self.grid.clone() }
    }
}

impl PartialEq for Board {
    /// Two grids are equal when they have the same dimensions and the same cells.
    fn eq(&self, other: &Board) -> (equal: bool) {
        let rows: usize = self.rows();
        let cols: usize = self.cols();
        if rows != other.rows() || cols != other.cols() {
            return false;
        }
        let mut row: usize = 0;
        while row < rows
            invariant
                row <= rows,
                is_grid(self@, rows as nat, cols as nat),
                is_grid(other@, rows as nat, cols as nat),
                forall|r: int| 0 <= r < row ==> self@[r] == other@[r],
            decreases rows - row,
        {
            let mut col: usize = 0;
            while col < cols
                invariant
                    row < rows,
                    col <= cols,
                    is_grid(self@, rows as nat, cols as nat),
                    is_grid(other@, rows as nat, cols as nat),
                    forall|c: int| 0 <= c < col ==> self@[row as int][c] == other@[row as int][c],
                decreases cols - col,
            {
                if self.get_index(row, col) != other.get_index(row, col) {
                    return false;
                }
                col += 1;
            }
            row += 1;
        }
        assert(self@ =~= other@);
        true
    }
}

impl Eq for Board {

}

impl PartialEqSpecImpl for Board {
    open spec fn obeys_eq_spec() -> bool {
        true
    }

    open spec fn eq_spec(&self, other: &Board) -> bool {
        self@ == other@
    }
}

/// A game in progress: the grid of the current generation.
#[derive(Debug)]
pub struct Game {
    board: Board,
}

impl View for Game {
    type V = Cells;

    closed spec fn view(&self) -> Cells {
        self.board@
    }
}

impl Game {
    /// A game whose first generation is `board`.
    pub fn new(board: Board) -> (game: Game)
        ensures
            game@ == board@,
    {
        Game { board }
    }

    /// The grid of the current generation.
    pub fn board(&self) -> (board: &Board)
        ensures
            board@ == self@,
    {
        &self.board
    }

    /// Ends the game and hands out the grid of its last generation.
    pub fn into_board(self) -> (board: Board)
        ensures
            board@ == self@,
    {
        self.board
    }

    /// The cell at `(row, col)` dies.
    pub fn death(grid: &mut Grid, row: usize, col: usize)
        requires
            in_bounds(old(grid).deep_view(), row as int, col as int),
        ensures
            final(grid).deep_view() == with_cell(
                old(grid).deep_view(),
                row as int,
                col as int,
                false,
            ),
    {
        grid[row][col] = false;
        assert(grid.deep_view() =~~= with_cell(
            old(grid).deep_view(),
            row as int,
            col as int,
            false,
        ));
    }

    /// The cell at `(row, col)` comes alive.
    pub fn life(grid: &mut Grid, row: usize, col: usize)
        requires
            in_bounds(old(grid).deep_view(), row as int, col as int),
        ensures
            final(grid).deep_view() == with_cell(
                old(grid).deep_view(),
                row as int,
                col as int,
                true,
            ),
    {
        grid[row][col] = true;
        assert(grid.deep_view() =~~= with_cell(
            old(grid).deep_view(),
            row as int,
            col as int,
            true,
        ));
    }

    // Rules that govern the game of life

    /// A live cell with fewer than two live neighbors dies.
    pub fn solitude(grid: &mut Grid, row: usize, col: usize)
        requires
            in_bounds(old(grid).deep_view(), row as int, col as int),
        ensures
            final(grid).deep_view() == with_cell(
                old(grid).deep_view(),
                row as int,
                col as int,
                false,
            ),
    {
        Game::death(grid, row, col);
    }

    /// A live cell with more than three live neighbors dies.
    pub fn overpopulation(grid: &mut Grid, row: usize, col: usize)
        requires
            in_bounds(old(grid).deep_view(), row as int, col as int),
        ensures
            final(grid).deep_view() == with_cell(
                old(grid).deep_view(),
                row as int,
                col as int,
                false,
            ),
    {
        Game::death(grid, row, col);
    }

    /// A live cell with two or three live neighbors lives on: nothing changes.
    pub fn balance(_grid: &mut Grid)
        ensures
            *final(_grid) == *old(_grid),
    {
    }

    /// A dead cell with exactly three live neighbors comes alive.
    pub fn populate(grid: &mut Grid, row: usize, col: usize)
        requires
            in_bounds(old(grid).deep_view(), row as int, col as int),
        ensures
            final(grid).deep_view() == with_cell(
                old(grid).deep_view(),
                row as int,
                col as int,
                true,
            ),
    {
        Game::life(grid, row, col);
    }

    /// Advances the game by one generation. Every cell is decided from the generation
    /// before the call, never from cells that this call has already decided.
    pub fn pass_year(&mut self)
        ensures
            final(self)@ == next_generation(old(self)@),
            row_count(final(self)@) == row_count(old(self)@),
            col_count(final(self)@) == col_count(old(self)@),
    {
        proof {
            use_type_invariant(&self.board);
        }
        let mut temp_grid: Grid = self.board.grid.clone();
        for row in 0..self.board.rows
            invariant
                *self == *old(self),
                is_grid(self@, self.board.rows as nat, self.board.cols as nat),
                decided_before(temp_grid.deep_view(), self@, row as int, 0),
        {
            for col in 0..self.board.cols
                invariant
                    *self == *old(self),
                    row < self.board.rows,
                    is_grid(self@, self.board.rows as nat, self.board.cols as nat),
                    decided_before(temp_grid.deep_view(), self@, row as int, col as int),
            {
                let is_alive: bool = self.board.get_index(row, col);
                let neighbor_count: usize = self.board.get_neighbor_count(row, col);

                if is_alive {
                    match neighbor_count {
                        0 | 1 => Game::solitude(&mut temp_grid, row, col),
                        2 | 3 => Game::balance(&mut temp_grid),
                        _ => Game::overpopulation(&mut temp_grid, row, col),
                    }
                } else if neighbor_count == 3 {
                    Game::populate(&mut temp_grid, row, col);
                }
            }
        }
        assert(temp_grid.deep_view() =~~= next_generation(self@));
        self.board.grid = temp_grid;
    }
}

/// The generation that follows `board`, as a grid of its own: `board` is not changed.
pub fn step(board: &Board) -> (next: Board)
    ensures
        next@ == next_generation(board@),
        row_count(next@) == row_count(board@),
        col_count(next@) == col_count(board@),
{
    let mut game = Game::new(board.clone());
    game.pass_year();
    game.into_board()
}

/// `temp` is midway between `cells` and the generation that follows it: it has the
/// shape of `cells`, the cells before `(row, col)` in row-major order hold their next
/// state, and the cells from `(row, col)` on are still as in `cells`.
spec fn decided_before(temp: Cells, cells: Cells, row: int, col: int) -> bool {
    &&& temp.len() == cells.len()
    &&& forall|r: int| 0 <= r < cells.len() ==> (#[trigger] temp[r]).len() == cells[r].len()
    &&& forall|r: int, c: int|
        in_bounds(cells, r, c) ==> #[trigger] temp[r][c] == if r < row || (r == row && c < col) {
            next_alive(cells[r][c], live_neighbors(cells, r, c))
        } else {
            cells[r][c]
        }
}

/// Writes one cell of a grid in place. It never unwinds, so a `Board` may lend it
/// its rows.
fn put(grid: &mut Grid, row: usize, col: usize, alive: bool)
    requires
        in_bounds(old(grid).deep_view(), row as int, col as int),
    ensures
        final(grid).deep_view() == with_cell(old(grid).deep_view(), row as int, col as int, alive),
    no_unwind
{
    grid[row][col] = alive;
    assert(grid.deep_view() =~~= with_cell(
        old(grid).deep_view(),
        row as int,
        col as int,
        alive,
    ));
}

} // verus!
