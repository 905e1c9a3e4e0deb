use quadlife::rules::next_state;
use quadlife::Grid;

/// A grid with the given interior cells alive.
fn grid_with(logical_width: usize, logical_height: usize, live: &[(usize, usize)]) -> Grid {
    let mut grid = Grid::new(logical_width, logical_height);
    for &(y, x) in live {
        grid.set(y, x, true);
    }
    grid
}

/// The positions of the live cells, row by row.
fn live_cells(grid: &Grid) -> Vec<(usize, usize)> {
    let mut live = Vec::new();
    for y in 0..grid.height() {
        for x in 0..grid.width() {
            if grid.get(y, x) {
                live.push((y, x));
            }
        }
    }
    live
}

#[test]
fn new_pads_each_side() {
    let grid = Grid::new(3, 2);
    assert_eq!(grid.width(), 8);
    assert_eq!(grid.height(), 6);
    assert_eq!(grid.logical_width(), 3);
    assert_eq!(grid.logical_height(), 2);
}

#[test]
fn new_is_all_dead() {
    let grid = Grid::new(4, 5);
    assert_eq!(grid.height(), 12);
    assert_eq!(grid.width(), 10);
    assert_eq!(live_cells(&grid), vec![]);
}

#[test]
fn new_with_zero_sides_is_border_only() {
    let grid = Grid::new(0, 0);
    assert_eq!(grid.height(), 2);
    assert_eq!(grid.width(), 2);
    assert_eq!(grid.logical_height(), 0);
    assert_eq!(grid.logical_width(), 0);
    assert_eq!(live_cells(&grid), vec![]);
    let next = grid.next();
    assert_eq!(next, grid);
}

#[test]
fn new_with_one_zero_side() {
    let grid = Grid::new(0, 3);
    assert_eq!(grid.width(), 2);
    assert_eq!(grid.height(), 8);
    assert_eq!(grid.next(), grid);
}

#[test]
fn set_changes_one_cell() {
    let mut grid = Grid::new(2, 2);
    grid.set(2, 3, true);
    assert_eq!(live_cells(&grid), vec![(2, 3)]);
    grid.set(1, 1, true);
    assert_eq!(live_cells(&grid), vec![(1, 1), (2, 3)]);
    grid.set(2, 3, false);
    assert_eq!(live_cells(&grid), vec![(1, 1)]);
}

#[test]
fn finalize_copies() {
    let grid = grid_with(2, 2, &[(1, 1), (3, 4), (4, 2)]);
    let copy = grid.finalize();
    assert_eq!(copy, grid);
    assert_eq!(live_cells(&copy), vec![(1, 1), (3, 4), (4, 2)]);
}

#[test]
fn finalize_is_independent_of_the_source() {
    let mut grid = grid_with(2, 2, &[(1, 1)]);
    let copy = grid.finalize();
    grid.set(2, 2, true);
    assert_eq!(live_cells(&copy), vec![(1, 1)]);
    assert_ne!(copy, grid);
}

#[test]
fn live_neighbors_counts_the_eight_around() {
    let grid = grid_with(2, 2, &[(1, 1), (1, 2), (1, 3), (2, 1), (2, 3), (3, 1), (3, 2), (3, 3)]);
    assert_eq!(grid.live_neighbors(2, 2), 8);
    assert_eq!(grid.live_neighbors(1, 1), 2);
    assert_eq!(grid.live_neighbors(1, 2), 4);
    assert_eq!(grid.live_neighbors(4, 4), 1);
    assert_eq!(grid.live_neighbors(4, 1), 2);
}

#[test]
fn live_neighbors_leaves_out_the_cell_itself() {
    let grid = grid_with(2, 2, &[(2, 2)]);
    assert_eq!(grid.live_neighbors(2, 2), 0);
    assert_eq!(grid.live_neighbors(1, 1), 1);
    assert_eq!(grid.live_neighbors(3, 3), 1);
    assert_eq!(grid.live_neighbors(2, 4), 0);
}

#[test]
fn next_state_follows_the_rule() {
    for n in 0u8..=8 {
        assert_eq!(next_state(true, n), n == 2 || n == 3, "live cell with {} neighbours", n);
        assert_eq!(next_state(false, n), n == 3, "dead cell with {} neighbours", n);
    }
}

#[test]
fn next_keeps_dimensions() {
    for &(lw, lh) in &[(0usize, 0usize), (1, 1), (3, 2), (7, 5)] {
        let mut grid = Grid::new(lw, lh);
        grid.randomize_seeded(11);
        let next = grid.next();
        assert_eq!(next.width(), grid.width());
        assert_eq!(next.height(), grid.height());
        assert_eq!(next.logical_width(), lw);
        assert_eq!(next.logical_height(), lh);
    }
}

#[test]
fn next_leaves_the_border_dead() {
    let mut grid = Grid::new(6, 4);
    grid.randomize_seeded(3);
    let mut current = grid.finalize();
    for _ in 0..5 {
        current = current.next();
        let h = current.height();
        let w = current.width();
        for y in 0..h {
            assert!(!current.get(y, 0));
            assert!(!current.get(y, w - 1));
        }
        for x in 0..w {
            assert!(!current.get(0, x));
            assert!(!current.get(h - 1, x));
        }
    }
}

#[test]
fn next_is_pure() {
    let mut grid = Grid::new(5, 5);
    grid.randomize_seeded(99);
    let before = grid.finalize();
    let first = grid.next();
    let second = grid.next();
    assert_eq!(first, second);
    assert_eq!(grid, before);
}

#[test]
fn next_does_not_wrap_around() {
    // Three cells along the top interior row: on a torus the cell below the
    // bottom row would be born, here it is not.
    let grid = grid_with(2, 2, &[(1, 1), (1, 2), (1, 3)]);
    let next = grid.next();
    assert_eq!(live_cells(&next), vec![(1, 2), (2, 2)]);
}

#[test]
fn lone_cell_dies() {
    let grid = grid_with(2, 2, &[(2, 2)]);
    assert_eq!(live_cells(&grid.next()), vec![]);
}

#[test]
fn crowded_cell_dies() {
    let grid = grid_with(2, 2, &[(2, 2), (1, 1), (1, 3), (3, 1), (3, 3)]);
    let next = grid.next();
    assert!(!next.get(2, 2));
    assert_eq!(live_cells(&next), vec![(1, 2), (2, 1), (2, 3), (3, 2)]);
}

#[test]
fn block_is_a_still_life() {
    let grid = grid_with(2, 2, &[(2, 2), (2, 3), (3, 2), (3, 3)]);
    for &(y, x) in &[(2usize, 2usize), (2, 3), (3, 2), (3, 3)] {
        assert_eq!(grid.live_neighbors(y, x), 3);
    }
    assert_eq!(grid.live_neighbors(1, 1), 1);
    assert_eq!(grid.live_neighbors(1, 2), 2);
    assert_eq!(grid.live_neighbors(2, 1), 2);
    assert_eq!(grid.live_neighbors(4, 4), 1);
    let next = grid.next();
    assert_eq!(next, grid);
    assert_eq!(next.next(), grid);
}

#[test]
fn block_in_the_corner_is_a_still_life() {
    let grid = grid_with(1, 1, &[(1, 1), (1, 2), (2, 1), (2, 2)]);
    assert_eq!(grid.next(), grid);
}

#[test]
fn blinker_oscillates() {
    let flat = grid_with(3, 3, &[(3, 2), (3, 3), (3, 4)]);
    let upright = grid_with(3, 3, &[(2, 3), (3, 3), (4, 3)]);
    let first = flat.next();
    assert_eq!(first, upright);
    assert_eq!(live_cells(&first), vec![(2, 3), (3, 3), (4, 3)]);
    let second = first.next();
    assert_eq!(second, flat);
    assert_eq!(live_cells(&second), vec![(3, 2), (3, 3), (3, 4)]);
}

#[test]
fn glider_moves_one_cell_diagonally_in_four_generations() {
    let start = grid_with(4, 4, &[(1, 2), (2, 3), (3, 1), (3, 2), (3, 3)]);
    let mut current = start.finalize();
    for _ in 0..4 {
        current = current.next();
    }
    assert_eq!(live_cells(&current), vec![(2, 3), (3, 4), (4, 2), (4, 3), (4, 4)]);
}

#[test]
fn fill_writes_row_by_row() {
    let mut grid = Grid::new(2, 1);
    grid.fill(&vec![true, false, false, true, false, true, true, false]);
    assert_eq!(live_cells(&grid), vec![(1, 1), (1, 4), (2, 2), (2, 3)]);
}

#[test]
fn fill_gives_each_cell_its_own_draw() {
    let mut grid = Grid::new(2, 2);
    let w = grid.width() - 2;
    let count = (grid.height() - 2) * w;
    assert_eq!(count, 16);
    for k in 0..count {
        let mut draws = vec![false; count];
        draws[k] = true;
        grid.fill(&draws);
        assert_eq!(live_cells(&grid), vec![(1 + k / w, 1 + k % w)]);
    }
}

#[test]
fn fill_overwrites_what_was_there() {
    let draws = vec![false, true, true, false];
    let mut empty = Grid::new(1, 1);
    let mut full = grid_with(1, 1, &[(1, 1), (1, 2), (2, 1), (2, 2)]);
    empty.fill(&draws);
    full.fill(&draws);
    assert_eq!(empty, full);
    assert_eq!(live_cells(&full), vec![(1, 2), (2, 1)]);
}

#[test]
fn fill_brings_as_many_cells_alive_as_draws_are_true() {
    let mut grid = Grid::new(3, 2);
    let draws: Vec<bool> = (0..24).map(|k| k % 3 == 0 || k % 7 == 0).collect();
    let expected = draws.iter().filter(|alive| **alive).count();
    grid.fill(&draws);
    assert_eq!(live_cells(&grid).len(), expected);
    assert_eq!(expected, 10);
}

#[test]
fn fill_leaves_the_border_dead() {
    let mut grid = Grid::new(2, 2);
    grid.fill(&vec![true; 16]);
    let h = grid.height();
    let w = grid.width();
    for y in 0..h {
        for x in 0..w {
            let inside = 1 <= y && y < h - 1 && 1 <= x && x < w - 1;
            assert_eq!(grid.get(y, x), inside);
        }
    }
}

#[test]
fn fill_without_interior_takes_no_draw() {
    let mut grid = Grid::new(0, 3);
    grid.fill(&Vec::new());
    assert_eq!(grid, Grid::new(0, 3));
}

#[test]
fn fill_returns_the_grid_for_chaining() {
    let mut grid = Grid::new(1, 1);
    let next = grid.fill(&vec![true, true, true, false]).next();
    assert_eq!(live_cells(&next), vec![(1, 1), (1, 2), (2, 1), (2, 2)]);
    assert_eq!(live_cells(&grid), vec![(1, 1), (1, 2), (2, 1)]);
}
