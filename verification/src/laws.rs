//! What holds of every generation and of every step from one to the next.

use vstd::prelude::*;
use vstd::std_specs::cmp::PartialEqSpec;
use crate::model::{
    Cells, alive_at, all_dead, col_count, in_row_major_order, is_grid, listed, lists_live_cells,
    live_neighbors, next_alive, next_generation, row_count, row_major_before,
};
use crate::simulation::Board;

verus! {

/// A step keeps the dimensions: the next generation has as many rows and as many
/// columns as the one it follows.
pub proof fn lemma_step_preserves_dimensions(cells: Cells)
    ensures
        row_count(next_generation(cells)) == row_count(cells),
        col_count(next_generation(cells)) == col_count(cells),
        forall|rows: nat, cols: nat|
            is_grid(cells, rows, cols) ==> is_grid(next_generation(cells), rows, cols),
{
}

/// A step is a function of the grid alone: whenever two grids are each the result of
/// stepping the same grid, they are the same grid, cell for cell, and compare equal.
pub proof fn lemma_step_deterministic(board: Board, first: Board, second: Board)
    requires
        first@ == next_generation(board@),
        second@ == next_generation(board@),
    ensures
        first@ == second@,
        first.eq_spec(&second),
{
}

/// Nothing is born from nothing: the generation after one without a live cell is that
/// same generation, without a live cell.
pub proof fn lemma_all_dead_stays_dead(cells: Cells)
    requires
        all_dead(cells),
    ensures
        all_dead(next_generation(cells)),
        next_generation(cells) == cells,
{
    assert forall|row: int, col: int| 0 <= row < cells.len() && 0 <= col < cells[row].len() implies
        #[trigger] next_generation(cells)[row][col] == cells[row][col] by {
        lemma_no_live_neighbors(cells, row, col);
        assert(!alive_at(cells, row, col));
    }
    assert(next_generation(cells) =~~= cells);
}

/// In a generation without a live cell, no cell has a live neighbor.
proof fn lemma_no_live_neighbors(cells: Cells, row: int, col: int)
    requires
        all_dead(cells),
    ensures
        live_neighbors(cells, row, col) == 0,
{
}

/// No cell has more than eight live neighbors, wherever it lies.
pub proof fn lemma_neighbor_count_at_most_eight(cells: Cells, row: int, col: int)
    ensures
        live_neighbors(cells, row, col) <= 8,
{
}

/// A cell in a corner of the grid has at most three live neighbors: the other five
/// lie beyond the edge.
pub proof fn lemma_corner_has_at_most_three_neighbors(cells: Cells, rows: nat, cols: nat)
    requires
        is_grid(cells, rows, cols),
    ensures
        live_neighbors(cells, 0, 0) <= 3,
        live_neighbors(cells, 0, cols - 1) <= 3,
        live_neighbors(cells, rows - 1, 0) <= 3,
        live_neighbors(cells, rows - 1, cols - 1) <= 3,
{
}

/// The transition rule, case by case: a live cell dies of solitude with fewer than
/// two live neighbors, lives on with two or three, and dies of overpopulation with
/// four or more; a dead cell comes alive with exactly three and stays dead otherwise.
pub proof fn lemma_transition_table(neighbors: nat)
    ensures
        neighbors < 2 ==> !next_alive(true, neighbors),
        neighbors == 2 || neighbors == 3 ==> next_alive(true, neighbors),
        neighbors >= 4 ==> !next_alive(true, neighbors),
        next_alive(false, neighbors) <==> neighbors == 3,
{
}

/// The live cells of a grid can be listed in one way only: two lists that each hold
/// the live cells of the same grid are the same list.
pub proof fn lemma_live_cells_unique(
    cells: Cells,
    first: Seq<(usize, usize)>,
    second: Seq<(usize, usize)>,
)
    requires
        lists_live_cells(first, cells),
        lists_live_cells(second, cells),
    ensures
        first == second,
{
    assert forall|cell: (usize, usize)| first.contains(cell) <==> second.contains(cell) by {
        if first.contains(cell) {
            lemma_listed_in_both(cells, first, second, cell);
        }
        if second.contains(cell) {
            lemma_listed_in_both(cells, second, first, cell);
        }
    }
    lemma_same_cells_same_order(first, second);
}

/// A coordinate that one list of the live cells holds, every other holds too.
proof fn lemma_listed_in_both(
    cells: Cells,
    one: Seq<(usize, usize)>,
    other: Seq<(usize, usize)>,
    cell: (usize, usize),
)
    requires
        lists_live_cells(one, cells),
        lists_live_cells(other, cells),
        one.contains(cell),
    ensures
        other.contains(cell),
{
    let i = choose|i: int| 0 <= i < one.len() && one[i] == cell;
    assert(alive_at(cells, one[i].0 as int, one[i].1 as int));
    assert(listed(other, cell.0 as int, cell.1 as int));
    let j = choose|j: int|
        0 <= j < other.len() && (#[trigger] other[j]).0 == cell.0 as int && other[j].1
            == cell.1 as int;
    assert(other[j] == cell);
}

/// Two lists in row-major order that hold the same coordinates are the same list.
proof fn lemma_same_cells_same_order(a: Seq<(usize, usize)>, b: Seq<(usize, usize)>)
    requires
        in_row_major_order(a),
        in_row_major_order(b),
        forall|cell: (usize, usize)| a.contains(cell) <==> b.contains(cell),
    ensures
        a == b,
    decreases a.len(),
{
    if a.len() == 0 {
        if b.len() > 0 {
            assert(b.contains(b[0]));
        }
        assert(a =~= b);
    } else {
        // Each list starts with the least coordinate of all, which the other holds too.
        assert(a.contains(a[0]));
        let j = choose|j: int| 0 <= j < b.len() && b[j] == a[0];
        assert(b.contains(b[0]));
        let i = choose|i: int| 0 <= i < a.len() && a[i] == b[0];
        assert(a[0] == b[0]) by {
            if i > 0 {
                assert(row_major_before(a[0], a[i]));
            }
            if j > 0 {
                assert(row_major_before(b[0], b[j]));
            }
        }
        let a_rest = a.subrange(1, a.len() as int);
        let b_rest = b.subrange(1, b.len() as int);
        assert forall|cell: (usize, usize)| a_rest.contains(cell) <==> b_rest.contains(cell) by {
            if a_rest.contains(cell) {
                lemma_rest_holds_the_same(a, b, cell);
            }
            if b_rest.contains(cell) {
                lemma_rest_holds_the_same(b, a, cell);
            }
        }
        lemma_same_cells_same_order(a_rest, b_rest);
        assert(a =~= seq![a[0]] + a_rest);
        assert(b =~= seq![b[0]] + b_rest);
    }
}

/// Where two lists in row-major order hold the same coordinates and start with the
/// same one, what follows the first in one list follows the first in the other.
proof fn lemma_rest_holds_the_same(
    a: Seq<(usize, usize)>,
    b: Seq<(usize, usize)>,
    cell: (usize, usize),
)
    requires
        a.len() > 0,
        b.len() > 0,
        a[0] == b[0],
        in_row_major_order(a),
        in_row_major_order(b),
        forall|other: (usize, usize)| a.contains(other) <==> b.contains(other),
        a.subrange(1, a.len() as int).contains(cell),
    ensures
        b.subrange(1, b.len() as int).contains(cell),
{
    let a_rest = a.subrange(1, a.len() as int);
    let b_rest = b.subrange(1, b.len() as int);
    let i = choose|i: int| 0 <= i < a_rest.len() && a_rest[i] == cell;
    assert(a[i + 1] == cell);
    assert(row_major_before(a[0], a[i + 1]));
    assert(a.contains(cell));
    let j = choose|j: int| 0 <= j < b.len() && b[j] == cell;
    assert(j > 0);
    assert(b_rest[j - 1] == cell);
}

} // verus!
