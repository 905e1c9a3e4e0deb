use quadlife::Grid;

/// How many cells of the grid are alive.
fn count_alive(grid: &Grid) -> usize {
    let mut alive = 0;
    for y in 0..grid.height() {
        for x in 0..grid.width() {
            if grid.get(y, x) {
                alive += 1;
            }
        }
    }
    alive
}

fn border_is_dead(grid: &Grid) -> bool {
    let h = grid.height();
    let w = grid.width();
    (0..h).all(|y| !grid.get(y, 0) && !grid.get(y, w - 1))
        && (0..w).all(|x| !grid.get(0, x) && !grid.get(h - 1, x))
}

#[test]
fn randomize_keeps_dimensions_and_border() {
    let mut grid = Grid::new(20, 10);
    grid.randomize();
    assert_eq!(grid.width(), 42);
    assert_eq!(grid.height(), 22);
    assert!(border_is_dead(&grid));
}

#[test]
fn randomize_fills_about_half() {
    let mut total = 0usize;
    let trials = 20;
    for _ in 0..trials {
        let mut grid = Grid::new(50, 50);
        grid.randomize();
        assert!(border_is_dead(&grid));
        let alive = count_alive(&grid);
        let fraction = alive as f64 / 10_000.0;
        assert!(fraction > 0.45 && fraction < 0.55, "fraction {}", fraction);
        total += alive;
    }
    let fraction = total as f64 / (trials as f64 * 10_000.0);
    assert!(fraction > 0.48 && fraction < 0.52, "fraction {}", fraction);
}

#[test]
fn randomize_seeded_fills_about_half() {
    let mut total = 0usize;
    for seed in 0..20u64 {
        let mut grid = Grid::new(50, 50);
        grid.randomize_seeded(seed);
        assert!(border_is_dead(&grid));
        total += count_alive(&grid);
    }
    let fraction = total as f64 / 200_000.0;
    assert!(fraction > 0.48 && fraction < 0.52, "fraction {}", fraction);
}

#[test]
fn randomize_seeded_repeats_for_one_seed() {
    let mut first = Grid::new(12, 9);
    let mut second = Grid::new(12, 9);
    first.randomize_seeded(2024);
    second.randomize_seeded(2024);
    assert_eq!(first, second);
}

#[test]
fn randomize_seeded_differs_between_seeds() {
    let mut first = Grid::new(12, 9);
    let mut second = Grid::new(12, 9);
    first.randomize_seeded(1);
    second.randomize_seeded(2);
    assert_ne!(first, second);
}

#[test]
fn randomize_draws_anew_each_time() {
    let mut first = Grid::new(12, 9);
    let mut second = Grid::new(12, 9);
    first.randomize();
    second.randomize();
    assert_ne!(first, second);
    assert_ne!(first, Grid::new(12, 9));
}

#[test]
fn randomize_overwrites_what_was_there() {
    let mut grid = Grid::new(8, 8);
    for y in 1..grid.height() - 1 {
        for x in 1..grid.width() - 1 {
            grid.set(y, x, true);
        }
    }
    grid.randomize_seeded(7);
    let alive = count_alive(&grid);
    assert!(alive > 64 && alive < 192, "alive {}", alive);
}

#[test]
fn randomize_returns_the_grid_for_chaining() {
    let mut grid = Grid::new(6, 6);
    let copy = grid.randomize().finalize();
    assert_eq!(copy, grid);
    let mut other = Grid::new(6, 6);
    let seeded = other.randomize_seeded(4).next();
    assert_eq!(seeded, other.next());
}

#[test]
fn randomize_on_a_grid_without_interior_changes_nothing() {
    let mut grid = Grid::new(0, 0);
    grid.randomize();
    assert_eq!(grid, Grid::new(0, 0));
    let mut narrow = Grid::new(0, 4);
    narrow.randomize_seeded(1);
    assert_eq!(narrow, Grid::new(0, 4));
}

#[test]
fn randomize_seeded_does_not_read_the_old_interior() {
    let mut empty = Grid::new(9, 7);
    let mut used = Grid::new(9, 7);
    used.randomize_seeded(5);
    let mut stepped = used.next();
    empty.randomize_seeded(77);
    used.randomize_seeded(77);
    stepped.randomize_seeded(77);
    assert_eq!(empty, used);
    assert_eq!(empty, stepped);
}

#[test]
fn randomize_seeded_draws_row_by_row() {
    // A taller grid of the same width starts with the rows of the shorter.
    let mut short = Grid::new(5, 2);
    let mut tall = Grid::new(5, 4);
    short.randomize_seeded(31);
    tall.randomize_seeded(31);
    for y in 1..short.height() - 1 {
        for x in 1..short.width() - 1 {
            assert_eq!(short.get(y, x), tall.get(y, x));
        }
    }
}
