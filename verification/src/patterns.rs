//! Small patterns whose next generation is known wherever in a grid they lie: the
//! block, the lone cell and the line of three.

use vstd::prelude::*;
use crate::model::{
    Cells, alive_at, all_dead, in_bounds, live_neighbors, next_alive, next_generation,
};

verus! {

/// The live cells of `cells` are the four cells of the square block whose upper left
/// cell is `(row, col)`, and no others.
pub open spec fn is_block(cells: Cells, row: int, col: int) -> bool {
    forall|r: int, c: int| #[trigger]
        alive_at(cells, r, c) <==> (row <= r <= row + 1 && col <= c <= col + 1)
}

/// The only live cell of `cells` is the one at `(row, col)`.
pub open spec fn is_lone_cell(cells: Cells, row: int, col: int) -> bool {
    forall|r: int, c: int| #[trigger] alive_at(cells, r, c) <==> (r == row && c == col)
}

/// The live cells of `cells` are the three of the upright line whose middle cell is
/// `(row, col)`, and no others.
pub open spec fn is_upright_line(cells: Cells, row: int, col: int) -> bool {
    forall|r: int, c: int| #[trigger]
        alive_at(cells, r, c) <==> (row - 1 <= r <= row + 1 && c == col)
}

/// The live cells of `cells` are the three of the level line whose middle cell is
/// `(row, col)`, and no others.
pub open spec fn is_level_line(cells: Cells, row: int, col: int) -> bool {
    forall|r: int, c: int| #[trigger]
        alive_at(cells, r, c) <==> (r == row && col - 1 <= c <= col + 1)
}

/// A block is stable: where a square of four is all that lives, the next generation
/// is the same as this one.
pub proof fn lemma_block_is_stable(cells: Cells, row: int, col: int)
    requires
        is_block(cells, row, col),
    ensures
        next_generation(cells) == cells,
{
    assert forall|r: int, c: int| 0 <= r < cells.len() && 0 <= c < cells[r].len() implies
        #[trigger] next_generation(cells)[r][c] == cells[r][c] by {
        lemma_neighbors_of_block(cells, row, col, r, c);
        assert(cells[r][c] == alive_at(cells, r, c));
    }
    assert(next_generation(cells) =~~= cells);
}

/// Around a block, each of its four cells has three live neighbors, and no other
/// cell has three.
proof fn lemma_neighbors_of_block(cells: Cells, row: int, col: int, r: int, c: int)
    requires
        is_block(cells, row, col),
    ensures
        alive_at(cells, r, c) ==> live_neighbors(cells, r, c) == 3,
        !alive_at(cells, r, c) ==> live_neighbors(cells, r, c) != 3,
{
}

/// A live cell on its own dies: where one cell is all that lives, nothing lives in
/// the next generation.
pub proof fn lemma_lone_cell_dies(cells: Cells, row: int, col: int)
    requires
        is_lone_cell(cells, row, col),
    ensures
        all_dead(next_generation(cells)),
{
    assert forall|r: int, c: int| !alive_at(next_generation(cells), r, c) by {
        lemma_neighbors_of_lone_cell(cells, row, col, r, c);
    }
}

/// Around a lone live cell, no cell has more than one live neighbor.
proof fn lemma_neighbors_of_lone_cell(cells: Cells, row: int, col: int, r: int, c: int)
    requires
        is_lone_cell(cells, row, col),
    ensures
        live_neighbors(cells, r, c) <= 1,
{
}

/// An upright line of three turns level: where it is all that lives and the grid has
/// a cell to the left and to the right of its middle, the next generation is the
/// level line of three through the same middle cell.
pub proof fn lemma_upright_line_turns_level(cells: Cells, row: int, col: int)
    requires
        is_upright_line(cells, row, col),
        in_bounds(cells, row, col - 1),
        in_bounds(cells, row, col + 1),
    ensures
        is_level_line(next_generation(cells), row, col),
{
    assert forall|r: int, c: int| #[trigger]
        alive_at(next_generation(cells), r, c) <==> (r == row && col - 1 <= c <= col + 1) by {
        lemma_neighbors_of_upright_line(cells, row, col, r, c);
        if in_bounds(cells, r, c) {
            assert(cells[r][c] == alive_at(cells, r, c));
            assert(next_generation(cells)[r][c] == next_alive(
                cells[r][c],
                live_neighbors(cells, r, c),
            ));
        }
        assert(alive_at(cells, row, col));
    }
}

/// Around an upright line of three, the middle cell has two live neighbors, the cells
/// to its left and right have three, and the two ends have one.
proof fn lemma_neighbors_of_upright_line(cells: Cells, row: int, col: int, r: int, c: int)
    requires
        is_upright_line(cells, row, col),
    ensures
        r == row && c == col ==> live_neighbors(cells, r, c) == 2,
        r == row && (c == col - 1 || c == col + 1) ==> live_neighbors(cells, r, c) == 3,
        (r == row - 1 || r == row + 1) && c == col ==> live_neighbors(cells, r, c) == 1,
        !(r == row && col - 1 <= c <= col + 1) && !alive_at(cells, r, c) ==> live_neighbors(
            cells,
            r,
            c,
        ) != 3,
{
}

/// A level line of three turns upright: where it is all that lives and the grid has
/// a cell above and below its middle, the next generation is the upright line of
/// three through the same middle cell.
pub proof fn lemma_level_line_turns_upright(cells: Cells, row: int, col: int)
    requires
        is_level_line(cells, row, col),
        in_bounds(cells, row - 1, col),
        in_bounds(cells, row + 1, col),
    ensures
        is_upright_line(next_generation(cells), row, col),
{
    assert forall|r: int, c: int| #[trigger]
        alive_at(next_generation(cells), r, c) <==> (row - 1 <= r <= row + 1 && c == col) by {
        lemma_neighbors_of_level_line(cells, row, col, r, c);
        if in_bounds(cells, r, c) {
            assert(cells[r][c] == alive_at(cells, r, c));
            assert(next_generation(cells)[r][c] == next_alive(
                cells[r][c],
                live_neighbors(cells, r, c),
            ));
        }
        assert(alive_at(cells, row, col));
    }
}

/// Around a level line of three, the middle cell has two live neighbors, the cells
/// above and below it have three, and the two ends have one.
proof fn lemma_neighbors_of_level_line(cells: Cells, row: int, col: int, r: int, c: int)
    requires
        is_level_line(cells, row, col),
    ensures
        r == row && c == col ==> live_neighbors(cells, r, c) == 2,
        (r == row - 1 || r == row + 1) && c == col ==> live_neighbors(cells, r, c) == 3,
        r == row && (c == col - 1 || c == col + 1) ==> live_neighbors(cells, r, c) == 1,
        !(row - 1 <= r <= row + 1 && c == col) && !alive_at(cells, r, c) ==> live_neighbors(
            cells,
            r,
            c,
        ) != 3,
{
}

/// A line of three is back after two generations.
pub proof fn lemma_line_of_three_has_period_two(cells: Cells, row: int, col: int)
    requires
        is_upright_line(cells, row, col),
        in_bounds(cells, row, col - 1),
        in_bounds(cells, row, col + 1),
    ensures
        next_generation(next_generation(cells)) == cells,
{
    let turned = next_generation(cells);
    let back = next_generation(turned);
    lemma_upright_line_turns_level(cells, row, col);
    assert(alive_at(cells, row - 1, col) && alive_at(cells, row + 1, col));
    lemma_level_line_turns_upright(turned, row, col);
    assert forall|r: int, c: int| 0 <= r < cells.len() && 0 <= c < cells[r].len() implies
        #[trigger] back[r][c] == cells[r][c] by {
        assert(back[r][c] == alive_at(back, r, c));
        assert(cells[r][c] == alive_at(cells, r, c));
    }
    assert(back =~~= cells);
}

} // verus!
