//! The executable grid: a rectangle of cells inside a ring of dead cells.

use crate::random::{entropy_seed, flip, seeded, seeded_draws};
use crate::rules::{
    all_dead, border_dead, filled, filled_to, filled_to_ends, filled_to_next, filled_well_formed,
    height, in_bounds, interior, interior_count, interior_index, interior_index_is_a_numbering,
    interior_of_filled, is_interior,
    last_row_ends_the_interior, live_neighbors, logical_height, logical_width, next_cell,
    next_generation, next_generation_well_formed, next_row_starts_where_this_ends, next_state,
    on_border, padded, well_formed, width,
};
use vstd::prelude::*;

verus! {

/// A field of cells, `true` for alive, stored row by row.
///
/// Every grid is a rectangle with even sides of at least two cells whose
/// outermost ring is dead: the type's invariant, `well_formed` of its view.
#[derive(Debug, PartialEq, Eq)]
pub struct Grid {
    cells: Vec<Vec<bool>>,
}

impl View for Grid {
    type V = Seq<Seq<bool>>;

    /// The rows of the grid, top to bottom, each from left to right.
    closed spec fn view(&self) -> Seq<Seq<bool>> {
        rows(self.cells)
    }
}

/// A row of `w` dead cells.
fn dead_row(w: usize) -> (row: Vec<bool>)
    ensures
        row@ == Seq::new(w as nat, |x: int| false),
{
    let mut row: Vec<bool> = Vec::new();
    let mut x: usize = 0;
    while x < w
        invariant
            x <= w,
            row@ == Seq::new(x as nat, |i: int| false),
        decreases w - x,
    {
        row.push(false);
        x += 1;
        assert(row@ =~= Seq::new(x as nat, |i: int| false));
    }
    row
}

/// The field that a vector of rows holds.
spec fn rows(cells: Vec<Vec<bool>>) -> Seq<Seq<bool>> {
    Seq::new(cells@.len(), |y: int| cells@[y]@)
}

/// Overwrites one interior cell of a stored field and leaves the rest, which
/// keeps the field well formed.
fn store(cells: &mut Vec<Vec<bool>>, y: usize, x: usize, alive: bool)
    requires
        well_formed(rows(*old(cells))),
        is_interior(rows(*old(cells)), y as int, x as int),
    ensures
        rows(*final(cells)) == rows(*old(cells)).update(
            y as int,
            rows(*old(cells))[y as int].update(x as int, alive),
        ),
        well_formed(rows(*final(cells))),
    no_unwind
{
    let ghost before = rows(*cells);
    let ghost after = before.update(y as int, before[y as int].update(x as int, alive));
    proof {
        assert(before[y as int].len() == width(before));
        assert forall|j: int| 0 <= j < after.len() implies (#[trigger] after[j]).len() == width(
            after,
        ) by {
            assert(before[j].len() == width(before));
        }
        assert forall|j: int, i: int| on_border(after, j, i) implies !(#[trigger] after[j][i]) by {
            assert(on_border(before, j, i));
            assert(!before[j][i]);
        }
    }
    cells[y][x] = alive;
    assert(rows(*cells) =~~= after);
}

impl Grid {
    /// What holds of every grid: its view is well formed.
    #[verifier::type_invariant]
    pub open spec fn inv(&self) -> bool {
        well_formed(self@)
    }

    /// The view, row by row, is what the vector holds, and so its sides fit
    /// in a `usize`.
    proof fn view_is_stored(&self)
        ensures
            self@.len() == self.cells@.len(),
            forall|y: int| 0 <= y < self.cells@.len() ==> #[trigger] self@[y] == self.cells@[y]@,
            height(self@) <= usize::MAX,
            width(self@) <= usize::MAX,
    {
        assert(self.cells.len() == self.cells@.len());
        if self.cells@.len() > 0 {
            assert(self.cells@[0].len() == self.cells@[0]@.len());
        }
    }

    /// A grid for a display of `columns` by `lines` characters: two cells for
    /// each character along either axis and the border around them, every
    /// cell dead.
    ///
    /// The padded sides have to fit in a `usize`.
    pub fn new(columns: usize, lines: usize) -> (r: Grid)
        requires
            padded(columns as nat) <= usize::MAX,
            padded(lines as nat) <= usize::MAX,
        ensures
            r@ == all_dead(padded(lines as nat), padded(columns as nat)),
            well_formed(r@),
            height(r@) == padded(lines as nat),
            width(r@) == padded(columns as nat),
            logical_height(r@) == lines,
            logical_width(r@) == columns,
    {
        let w: usize = columns * 2 + 2;
        let h: usize = lines * 2 + 2;
        let mut cells: Vec<Vec<bool>> = Vec::new();
        let mut y: usize = 0;
        while y < h
            invariant
                y <= h,
                cells@.len() == y,
                forall|j: int| 0 <= j < y ==> (#[trigger] cells@[j])@ == Seq::new(w as nat, |x: int| false),
            decreases h - y,
        {
            cells.push(dead_row(w));
            y += 1;
        }
        let r = Grid { cells };
        assert(r@ =~~= all_dead(h as nat, w as nat));
        r
    }

    /// The number of rows, border included.
    pub fn height(&self) -> (h: usize)
        ensures
            h == height(self@),
            h >= 2,
    {
        proof {
            use_type_invariant(self);
        }
        self.cells.len()
    }

    /// The number of columns, border included.
    pub fn width(&self) -> (w: usize)
        ensures
            w == width(self@),
            w >= 2,
    {
        proof {
            use_type_invariant(self);
        }
        self.cells[0].len()
    }

    /// The number of rows of characters that the grid is displayed in.
    pub fn logical_height(&self) -> (h: usize)
        ensures
            h == logical_height(self@),
            padded(h as nat) == height(self@),
    {
        proof {
            use_type_invariant(self);
        }
        (self.cells.len() - 2) / 2
    }

    /// The number of columns of characters that the grid is displayed in.
    pub fn logical_width(&self) -> (w: usize)
        ensures
            w == logical_width(self@),
            padded(w as nat) == width(self@),
    {
        proof {
            use_type_invariant(self);
        }
        (self.cells[0].len() - 2) / 2
    }

    /// The cell at row `y`, column `x`.
    pub fn get(&self, y: usize, x: usize) -> (alive: bool)
        requires
            in_bounds(self@, y as int, x as int),
        ensures
            alive == self@[y as int][x as int],
    {
        proof {
            use_type_invariant(self);
            assert(self@[y as int] == self.cells@[y as int]@);
        }
        self.cells[y][x]
    }

    /// How many of the eight cells around the interior cell at row `y`,
    /// column `x` are alive. The border makes every one of them a cell of
    /// the grid.
    pub fn live_neighbors(&self, y: usize, x: usize) -> (n: u8)
        requires
            is_interior(self@, y as int, x as int),
        ensures
            n == live_neighbors(self@, y as int, x as int),
            n <= 8,
    {
        proof {
            use_type_invariant(self);
            self.view_is_stored();
            assert(self@[y - 1].len() == width(self@));
            assert(self@[y as int].len() == width(self@));
            assert(self@[y + 1].len() == width(self@));
        }
        let above = &self.cells[y - 1];
        let level = &self.cells[y];
        let below = &self.cells[y + 1];
        let mut n: u8 = 0;
        if above[x - 1] {
            n += 1;
        }
        if above[x] {
            n += 1;
        }
        if above[x + 1] {
            n += 1;
        }
        if level[x - 1] {
            n += 1;
        }
        if level[x + 1] {
            n += 1;
        }
        if below[x - 1] {
            n += 1;
        }
        if below[x] {
            n += 1;
        }
        if below[x + 1] {
            n += 1;
        }
        n
    }

    /// The next generation, as a new grid; this one is left as it is.
    ///
    /// Every interior cell follows the rule of Life on its eight neighbours;
    /// every border cell stays dead.
    pub fn next(&self) -> (r: Grid)
        ensures
            r@ == next_generation(self@),
            well_formed(r@),
            height(r@) == height(self@),
            width(r@) == width(self@),
            border_dead(r@),
    {
        proof {
            use_type_invariant(self);
        }
        let h: usize = self.cells.len();
        let w: usize = self.cells[0].len();
        let mut cells: Vec<Vec<bool>> = Vec::new();
        let mut y: usize = 0;
        while y < h
            invariant
                well_formed(self@),
                h == height(self@),
                w == width(self@),
                y <= h,
                cells@.len() == y,
                forall|j: int| 0 <= j < y ==> (#[trigger] cells@[j])@ == next_generation(self@)[j],
            decreases h - y,
        {
            let mut row: Vec<bool> = Vec::new();
            let mut x: usize = 0;
            while x < w
                invariant
                    well_formed(self@),
                    h == height(self@),
                    w == width(self@),
                    y < h,
                    x <= w,
                    row@.len() == x,
                    forall|i: int| 0 <= i < x ==> row@[i] == next_cell(self@, y as int, i),
                decreases w - x,
            {
                let alive = if 1 <= y && y < h - 1 && 1 <= x && x < w - 1 {
                    let n = self.live_neighbors(y, x);
                    next_state(self.get(y, x), n)
                } else {
                    false
                };
                row.push(alive);
                x += 1;
            }
            assert(row@ =~= next_generation(self@)[y as int]);
            cells.push(row);
            y += 1;
        }
        let r = Grid { cells };
        proof {
            assert(r@ =~~= next_generation(self@));
            next_generation_well_formed(self@);
        }
        r
    }

    /// Sets the interior cell at row `y`, column `x`; every other cell keeps
    /// its state.
    pub fn set(&mut self, y: usize, x: usize, alive: bool)
        requires
            is_interior(old(self)@, y as int, x as int),
        ensures
            final(self)@ == old(self)@.update(y as int, old(self)@[y as int].update(x as int, alive)),
            well_formed(final(self)@),
            height(final(self)@) == height(old(self)@),
            width(final(self)@) == width(old(self)@),
    {
        proof {
            use_type_invariant(&*self);
        }
        store(&mut self.cells, y, x, alive);
    }

    /// A copy of the grid.
    pub fn finalize(&self) -> (r: Grid)
        ensures
            r@ == self@,
            well_formed(r@),
    {
        proof {
            use_type_invariant(self);
            self.view_is_stored();
        }
        let h: usize = self.cells.len();
        let mut cells: Vec<Vec<bool>> = Vec::new();
        let mut y: usize = 0;
        while y < h
            invariant
                h == self.cells@.len(),
                y <= h,
                cells@.len() == y,
                forall|j: int| 0 <= j < y ==> (#[trigger] cells@[j])@ == self.cells@[j]@,
            decreases h - y,
        {
            let source = &self.cells[y];
            let w: usize = source.len();
            let mut row: Vec<bool> = Vec::new();
            let mut x: usize = 0;
            while x < w
                invariant
                    w == source@.len(),
                    x <= w,
                    row@ == source@.take(x as int),
                decreases w - x,
            {
                row.push(source[x]);
                x += 1;
                assert(row@ =~= source@.take(x as int));
            }
            assert(row@ =~= source@);
            cells.push(row);
            y += 1;
        }
        assert(rows(cells) =~~= self@);
        Grid { cells }
    }

    /// Writes `draws` into the interior, one for each cell, row by row from
    /// the top and each row from the left; the border is left as it is.
    /// What the interior held before is not read. Returns the grid itself,
    /// so that calls can be chained.
    pub fn fill(&mut self, draws: &Vec<bool>) -> (r: &mut Grid)
        requires
            draws@.len() == interior_count(old(self)@),
        ensures
            *final(self) == *final(r),
            r@ == filled(old(self)@, draws@),
            interior(r@) == draws@,
            well_formed(r@),
            height(r@) == height(old(self)@),
            width(r@) == width(old(self)@),
    {
        let ghost before = self@;
        proof {
            use_type_invariant(&*self);
            filled_to_ends(before, draws@);
        }
        let h: usize = self.height();
        let w: usize = self.width();
        let count: usize = draws.len();
        let mut k: usize = 0;
        let mut y: usize = 1;
        while y < h - 1
            invariant
                well_formed(before),
                h == height(before),
                w == width(before),
                count == interior_count(before),
                count == draws@.len(),
                1 <= y <= h - 1,
                k == interior_index(before, y as int, 1),
                self@ == filled_to(before, draws@, k as int),
            decreases h - y,
        {
            let mut x: usize = 1;
            while x < w - 1
                invariant
                    well_formed(before),
                    h == height(before),
                    w == width(before),
                    count == interior_count(before),
                count == draws@.len(),
                    1 <= y < h - 1,
                    1 <= x <= w - 1,
                    k == interior_index(before, y as int, x as int),
                    self@ == filled_to(before, draws@, k as int),
                decreases w - x,
            {
                proof {
                    interior_index_is_a_numbering(before);
                    filled_to_next(before, draws@, y as int, x as int);
                    assert(is_interior(before, y as int, x as int));
                }
                self.set(y, x, draws[k]);
                k += 1;
                x += 1;
            }
            proof {
                next_row_starts_where_this_ends(before, y as int);
            }
            y += 1;
        }
        proof {
            last_row_ends_the_interior(before);
            filled_well_formed(before, draws@);
            interior_of_filled(before, draws@);
        }
        self
    }

    /// Seeds the grid from the generator of the current thread: every
    /// interior cell is set to alive or dead with equal chance, each
    /// independently of the others, and the border stays dead. Returns the
    /// grid itself, so that calls can be chained.
    ///
    /// One seed is drawn from the thread's generator and the grid is then
    /// seeded as `randomize_seeded` does with it. Which seed comes is a
    /// matter of chance; the contract states that the grid is the one that
    /// belongs to some seed.
    ///
    /// The thread's generator takes its own seed from the operating system,
    /// and panics where the operating system's source of randomness reports
    /// an error.
    pub fn randomize(&mut self) -> (r: &mut Grid)
        ensures
            *final(self) == *final(r),
            exists|seed: u64|
                r@ == filled(
                    old(self)@,
                    #[trigger] seeded_draws(seed, interior_count(old(self)@)),
                ),
            well_formed(r@),
            height(r@) == height(old(self)@),
            width(r@) == width(old(self)@),
    {
        self.randomize_seeded(entropy_seed());
        self
    }

    /// Seeds the grid from the generator made of `seed`: the interior cells
    /// take, row by row from the top and each row from the left, the states
    /// that the generator hands out, one draw for each cell; the border stays
    /// dead. What the interior held before is not read, so that one seed
    /// gives one grid. Returns the grid itself, so that calls can be chained.
    pub fn randomize_seeded(&mut self, seed: u64) -> (r: &mut Grid)
        ensures
            *final(self) == *final(r),
            r@ == filled(old(self)@, seeded_draws(seed, interior_count(old(self)@))),
            interior(r@) == seeded_draws(seed, interior_count(old(self)@)),
            well_formed(r@),
            height(r@) == height(old(self)@),
            width(r@) == width(old(self)@),
    {
        let ghost before = self@;
        let ghost draws = seeded_draws(seed, interior_count(before));
        proof {
            use_type_invariant(&*self);
            filled_to_ends(before, draws);
        }
        let mut rng = seeded(seed);
        let h: usize = self.height();
        let w: usize = self.width();
        let mut y: usize = 1;
        while y < h - 1
            invariant
                well_formed(before),
                h == height(before),
                w == width(before),
                draws == seeded_draws(seed, interior_count(before)),
                1 <= y <= h - 1,
                rng.seed() == seed,
                rng.drawn() == interior_index(before, y as int, 1),
                self@ == filled_to(before, draws, rng.drawn() as int),
            decreases h - y,
        {
            let mut x: usize = 1;
            while x < w - 1
                invariant
                    well_formed(before),
                    h == height(before),
                    w == width(before),
                    draws == seeded_draws(seed, interior_count(before)),
                    1 <= y < h - 1,
                    1 <= x <= w - 1,
                    rng.seed() == seed,
                    rng.drawn() == interior_index(before, y as int, x as int),
                    self@ == filled_to(before, draws, rng.drawn() as int),
                decreases w - x,
            {
                proof {
                    interior_index_is_a_numbering(before);
                    filled_to_next(before, draws, y as int, x as int);
                    assert(is_interior(before, y as int, x as int));
                }
                let alive = flip(&mut rng);
                self.set(y, x, alive);
                x += 1;
            }
            proof {
                next_row_starts_where_this_ends(before, y as int);
            }
            y += 1;
        }
        proof {
            last_row_ends_the_interior(before);
            filled_well_formed(before, draws);
            interior_of_filled(before, draws);
        }
        self
    }
}

} // verus!
