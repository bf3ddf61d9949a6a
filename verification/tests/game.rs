use game_of_life::simulation::{step, Board, Game, Grid};

const AROUND_CENTRE: [(usize, usize); 8] =
    [(0, 0), (0, 1), (0, 2), (1, 0), (1, 2), (2, 0), (2, 1), (2, 2)];

fn board_with(rows: usize, cols: usize, live: &[(usize, usize)]) -> Board {
    let mut board = Board::new(rows, cols);
    assert_eq!(board.seed(live), Ok(()));
    board
}

fn after_one_year(board: Board) -> Board {
    let mut game = Game::new(board);
    game.pass_year();
    game.into_board()
}

fn centre_after_one_year(alive: bool, neighbors: usize) -> bool {
    let mut board = board_with(3, 3, &AROUND_CENTRE[..neighbors]);
    board.set_index(1, 1, alive);
    assert_eq!(board.get_neighbor_count(1, 1), neighbors);
    after_one_year(board).get_index(1, 1)
}

#[test]
fn live_cell_with_no_or_one_neighbor_dies() {
    assert!(!centre_after_one_year(true, 0));
    assert!(!centre_after_one_year(true, 1));
}

#[test]
fn live_cell_with_two_or_three_neighbors_lives_on() {
    assert!(centre_after_one_year(true, 2));
    assert!(centre_after_one_year(true, 3));
}

#[test]
fn live_cell_with_four_or_more_neighbors_dies() {
    for neighbors in 4..9 {
        assert!(!centre_after_one_year(true, neighbors));
    }
}

#[test]
fn dead_cell_with_three_neighbors_comes_alive() {
    assert!(centre_after_one_year(false, 3));
}

#[test]
fn dead_cell_with_any_other_count_stays_dead() {
    for neighbors in [0, 1, 2, 4, 5, 6, 7, 8] {
        assert!(!centre_after_one_year(false, neighbors));
    }
}

#[test]
fn step_preserves_dimensions() {
    for (rows, cols) in [(1, 1), (1, 6), (6, 1), (3, 3), (2, 5), (5, 2), (30, 30)] {
        let mut board = Board::new(rows, cols);
        board.set_index(rows - 1, cols - 1, true);
        board.set_index(0, 0, true);
        let next = step(&board);
        assert_eq!(next.rows(), rows);
        assert_eq!(next.cols(), cols);
        let mut game = Game::new(board);
        game.pass_year();
        assert_eq!(game.board().rows(), rows);
        assert_eq!(game.board().cols(), cols);
    }
}

#[test]
fn step_twice_on_the_same_grid_gives_the_same_grid() {
    let board = board_with(6, 6, &[(0, 1), (1, 2), (2, 0), (2, 1), (2, 2), (5, 5)]);
    let first = step(&board);
    let second = step(&board);
    assert_eq!(first, second);
    assert_eq!(first.live_cells(), second.live_cells());
}

#[test]
fn step_leaves_its_argument_unchanged() {
    let board = board_with(3, 3, &[(0, 1), (1, 1), (2, 1)]);
    let before = board.clone();
    let next = step(&board);
    assert_eq!(board, before);
    assert_ne!(next, board);
}

#[test]
fn pass_year_and_step_agree() {
    let board = board_with(5, 7, &[(0, 0), (0, 1), (1, 0), (2, 3), (2, 4), (2, 5), (4, 6)]);
    let stepped = step(&board);
    assert_eq!(after_one_year(board), stepped);
}

#[test]
fn all_dead_grid_stays_all_dead() {
    for (rows, cols) in [(1, 1), (1, 7), (7, 1), (2, 2), (4, 3), (30, 30)] {
        let next = step(&Board::new(rows, cols));
        assert_eq!(next, Board::new(rows, cols));
        assert!(next.live_cells().is_empty());
    }
}

#[test]
fn block_is_stable() {
    let block = board_with(4, 4, &[(1, 1), (1, 2), (2, 1), (2, 2)]);
    for cell in [(1, 1), (1, 2), (2, 1), (2, 2)] {
        assert_eq!(block.get_neighbor_count(cell.0, cell.1), 3);
    }
    let next = step(&block);
    assert_eq!(next, block);
    assert_eq!(next.live_cells(), vec![(1, 1), (1, 2), (2, 1), (2, 2)]);
}

#[test]
fn single_isolated_live_cell_dies() {
    let next = step(&board_with(3, 3, &[(1, 1)]));
    assert!(next.live_cells().is_empty());
    for row in 0..3 {
        for col in 0..3 {
            assert!(!next.get_index(row, col));
        }
    }
}

#[test]
fn vertical_line_of_three_turns_horizontal() {
    let next = step(&board_with(3, 3, &[(0, 1), (1, 1), (2, 1)]));
    assert!(next.get_index(1, 0));
    assert!(next.get_index(1, 2));
    assert!(next.get_index(1, 1));
    assert!(!next.get_index(0, 1));
    assert!(!next.get_index(2, 1));
    assert_eq!(next.live_cells(), vec![(1, 0), (1, 1), (1, 2)]);
}

#[test]
fn blinker_returns_after_two_years() {
    let blinker = board_with(5, 5, &[(1, 2), (2, 2), (3, 2)]);
    let mut game = Game::new(blinker.clone());
    game.pass_year();
    assert_eq!(game.board().live_cells(), vec![(2, 1), (2, 2), (2, 3)]);
    game.pass_year();
    assert_eq!(*game.board(), blinker);
}

#[test]
fn glider_moves_one_cell_diagonally_in_four_years() {
    let mut game = Game::new(board_with(6, 6, &[(0, 1), (1, 2), (2, 0), (2, 1), (2, 2)]));
    game.pass_year();
    assert_eq!(game.board().live_cells(), vec![(1, 0), (1, 2), (2, 1), (2, 2), (3, 1)]);
    game.pass_year();
    game.pass_year();
    game.pass_year();
    assert_eq!(game.board().live_cells(), vec![(1, 2), (2, 3), (3, 1), (3, 2), (3, 3)]);
}

#[test]
fn cells_are_decided_from_the_old_generation_only() {
    // Rewriting the grid in place, row by row, would kill (0, 0) before (0, 1) is
    // looked at, and (0, 1) would then die as well.
    let next = step(&board_with(2, 3, &[(0, 0), (0, 1), (0, 2)]));
    assert_eq!(next.live_cells(), vec![(0, 1), (1, 1)]);
}

#[test]
fn line_on_the_edge_does_not_reach_the_other_side() {
    let next = step(&board_with(3, 3, &[(0, 2), (1, 2), (2, 2)]));
    assert_eq!(next.live_cells(), vec![(1, 1), (1, 2)]);
}

#[test]
fn full_grid_keeps_only_its_corners() {
    let mut board = Board::new(3, 3);
    for row in 0..3 {
        for col in 0..3 {
            board.set_index(row, col, true);
        }
    }
    assert_eq!(step(&board).live_cells(), vec![(0, 0), (0, 2), (2, 0), (2, 2)]);
}

#[test]
fn not_square_grid_steps_by_its_own_shape() {
    let next = step(&board_with(2, 5, &[(0, 2), (0, 3), (0, 4)]));
    assert_eq!(next.rows(), 2);
    assert_eq!(next.cols(), 5);
    assert_eq!(next.live_cells(), vec![(0, 3), (1, 3)]);
}

#[test]
fn new_game_holds_the_board_it_was_given() {
    let board = board_with(3, 4, &[(2, 3)]);
    let game = Game::new(board.clone());
    assert_eq!(*game.board(), board);
    assert_eq!(game.into_board(), board);
}

fn raw_grid() -> Grid {
    vec![vec![true, false, true], vec![false, true, false]]
}

#[test]
fn death_kills_one_cell() {
    let mut grid = raw_grid();
    Game::death(&mut grid, 0, 2);
    assert_eq!(grid, vec![vec![true, false, false], vec![false, true, false]]);
    Game::death(&mut grid, 1, 0);
    assert_eq!(grid, vec![vec![true, false, false], vec![false, true, false]]);
}

#[test]
fn life_revives_one_cell() {
    let mut grid = raw_grid();
    Game::life(&mut grid, 1, 2);
    assert_eq!(grid, vec![vec![true, false, true], vec![false, true, true]]);
    Game::life(&mut grid, 0, 0);
    assert_eq!(grid, vec![vec![true, false, true], vec![false, true, true]]);
}

#[test]
fn solitude_kills_the_cell() {
    let mut grid = raw_grid();
    Game::solitude(&mut grid, 1, 1);
    assert_eq!(grid, vec![vec![true, false, true], vec![false, false, false]]);
}

#[test]
fn overpopulation_kills_the_cell() {
    let mut grid = raw_grid();
    Game::overpopulation(&mut grid, 0, 0);
    assert_eq!(grid, vec![vec![false, false, true], vec![false, true, false]]);
}

#[test]
fn balance_changes_nothing() {
    let mut grid = raw_grid();
    Game::balance(&mut grid);
    assert_eq!(grid, raw_grid());
}

#[test]
fn populate_revives_the_cell() {
    let mut grid = raw_grid();
    Game::populate(&mut grid, 0, 1);
    assert_eq!(grid, vec![vec![true, true, true], vec![false, true, false]]);
}
