//! The mathematical model of the automaton.
//!
//! A field is a `Seq<Seq<bool>>`: a sequence of rows, each a sequence of
//! cells, `true` for alive. Everything here is specification or proof; the
//! executable grid states its contracts over these functions.

use vstd::arithmetic::div_mod::{lemma_div_pos_is_pos, lemma_fundamental_div_mod, lemma_mod_bound};
use vstd::prelude::*;

verus! {

/// The number of rows of a field.
pub open spec fn height(cells: Seq<Seq<bool>>) -> nat {
    cells.len()
}

/// The number of columns of a field: the length of its first row, or zero
/// where it has no row.
pub open spec fn width(cells: Seq<Seq<bool>>) -> nat {
    if cells.len() > 0 {
        cells[0].len()
    } else {
        0
    }
}

/// Whether `(y, x)` is a position of the field.
pub open spec fn in_bounds(cells: Seq<Seq<bool>>, y: int, x: int) -> bool {
    0 <= y < height(cells) && 0 <= x < width(cells)
}

/// Whether `(y, x)` lies on the outermost ring of the field.
pub open spec fn on_border(cells: Seq<Seq<bool>>, y: int, x: int) -> bool {
    in_bounds(cells, y, x) && (y == 0 || y == height(cells) - 1 || x == 0 || x == width(cells) - 1)
}

/// Whether `(y, x)` is a position of the field that is not on its border.
pub open spec fn is_interior(cells: Seq<Seq<bool>>, y: int, x: int) -> bool {
    1 <= y < height(cells) - 1 && 1 <= x < width(cells) - 1
}

/// Every row has the same length.
pub open spec fn rectangular(cells: Seq<Seq<bool>>) -> bool {
    forall|y: int| 0 <= y < cells.len() ==> (#[trigger] cells[y]).len() == width(cells)
}

/// Every cell of the outermost ring is dead.
pub open spec fn border_dead(cells: Seq<Seq<bool>>) -> bool {
    forall|y: int, x: int| on_border(cells, y, x) ==> !(#[trigger] cells[y][x])
}

/// The invariant of a grid: a rectangle whose sides are even and at least
/// two, so that the interior splits into two-by-two blocks inside a ring of
/// dead cells.
pub open spec fn well_formed(cells: Seq<Seq<bool>>) -> bool {
    &&& height(cells) >= 2
    &&& width(cells) >= 2
    &&& height(cells) % 2 == 0
    &&& width(cells) % 2 == 0
    &&& rectangular(cells)
    &&& border_dead(cells)
}

/// The padded side that belongs to a logical side: two cells for each
/// displayed character, and one border cell at either end.
pub open spec fn padded(logical: nat) -> nat {
    logical * 2 + 2
}

/// The number of displayed rows of a field.
pub open spec fn logical_height(cells: Seq<Seq<bool>>) -> nat {
    ((height(cells) - 2) / 2) as nat
}

/// The number of displayed columns of a field.
pub open spec fn logical_width(cells: Seq<Seq<bool>>) -> nat {
    ((width(cells) - 2) / 2) as nat
}

/// The field of `h` rows and `w` columns in which every cell is dead.
pub open spec fn all_dead(h: nat, w: nat) -> Seq<Seq<bool>> {
    Seq::new(h, |y: int| Seq::new(w, |x: int| false))
}

/// The number of interior cells of a field.
pub open spec fn interior_count(cells: Seq<Seq<bool>>) -> nat {
    if height(cells) >= 2 && width(cells) >= 2 {
        ((height(cells) - 2) * (width(cells) - 2)) as nat
    } else {
        0
    }
}

/// The place of the interior cell `(y, x)` when the interior is read row by
/// row from the top, each row from the left, counted from zero.
pub open spec fn interior_index(cells: Seq<Seq<bool>>, y: int, x: int) -> int {
    (y - 1) * (width(cells) - 2) + (x - 1)
}

/// The field whose first `n` interior cells, read row by row, hold the first
/// `n` of `draws`, and whose other cells are those of `cells`.
pub open spec fn filled_to(cells: Seq<Seq<bool>>, draws: Seq<bool>, n: int) -> Seq<Seq<bool>> {
    Seq::new(
        height(cells),
        |y: int|
            Seq::new(
                width(cells),
                |x: int|
                    if is_interior(cells, y, x) && interior_index(cells, y, x) < n {
                        draws[interior_index(cells, y, x)]
                    } else {
                        cells[y][x]
                    },
            ),
    )
}

/// The field whose interior, read row by row, holds `draws`, one for each
/// cell, and whose border is that of `cells`.
pub open spec fn filled(cells: Seq<Seq<bool>>, draws: Seq<bool>) -> Seq<Seq<bool>> {
    Seq::new(
        height(cells),
        |y: int|
            Seq::new(
                width(cells),
                |x: int|
                    if is_interior(cells, y, x) {
                        draws[interior_index(cells, y, x)]
                    } else {
                        cells[y][x]
                    },
            ),
    )
}

/// The interior of a field read row by row from the top, each row from the
/// left.
pub open spec fn interior(cells: Seq<Seq<bool>>) -> Seq<bool> {
    Seq::new(
        interior_count(cells),
        |k: int| cells[1 + k / (width(cells) - 2)][1 + k % (width(cells) - 2)],
    )
}

/// Whether the cell at `(y, x)` is alive; a position outside the field counts
/// as dead.
pub open spec fn alive_at(cells: Seq<Seq<bool>>, y: int, x: int) -> bool {
    0 <= y < cells.len() && 0 <= x < cells[y].len() && cells[y][x]
}

/// One for a live cell, zero for a dead one.
pub open spec fn population(alive: bool) -> nat {
    if alive {
        1
    } else {
        0
    }
}

/// How many of the eight cells around `(y, x)` are alive.
pub open spec fn live_neighbors(cells: Seq<Seq<bool>>, y: int, x: int) -> nat {
    population(alive_at(cells, y - 1, x - 1)) + population(alive_at(cells, y - 1, x))
        + population(alive_at(cells, y - 1, x + 1)) + population(alive_at(cells, y, x - 1))
        + population(alive_at(cells, y, x + 1)) + population(alive_at(cells, y + 1, x - 1))
        + population(alive_at(cells, y + 1, x)) + population(alive_at(cells, y + 1, x + 1))
}

/// The rule of Life: a cell is alive in the next generation exactly if it has
/// three live neighbours, or is alive and has two.
pub open spec fn lives_on(alive: bool, neighbors: nat) -> bool {
    neighbors == 3 || (alive && neighbors == 2)
}

/// The state of the cell at `(y, x)` one generation later: the rule for an
/// interior cell, dead for every other position.
pub open spec fn next_cell(cells: Seq<Seq<bool>>, y: int, x: int) -> bool {
    is_interior(cells, y, x) && lives_on(cells[y][x], live_neighbors(cells, y, x))
}

/// The field one generation later.
pub open spec fn next_generation(cells: Seq<Seq<bool>>) -> Seq<Seq<bool>> {
    Seq::new(height(cells), |y: int| Seq::new(width(cells), |x: int| next_cell(cells, y, x)))
}

/// Applies the rule of Life to one cell, given the number of its live
/// neighbours.
pub fn next_state(alive: bool, neighbors: u8) -> (r: bool)
    ensures
        r == lives_on(alive, neighbors as nat),
{
    if alive {
        !(neighbors != 2 && neighbors != 3)
    } else {
        neighbors == 3
    }
}

/// A generation keeps the dimensions of the field.
pub proof fn next_generation_keeps_dimensions(cells: Seq<Seq<bool>>)
    ensures
        height(next_generation(cells)) == height(cells),
        width(next_generation(cells)) == width(cells),
        rectangular(next_generation(cells)),
{
}

/// After a generation every border cell is dead, whatever the field held
/// before.
pub proof fn next_generation_border_dead(cells: Seq<Seq<bool>>)
    ensures
        border_dead(next_generation(cells)),
{
    let next = next_generation(cells);
    assert forall|y: int, x: int| on_border(next, y, x) implies !(#[trigger] next[y][x]) by {
        assert(!is_interior(cells, y, x));
    }
}

/// A generation of a well-formed field is well formed.
pub proof fn next_generation_well_formed(cells: Seq<Seq<bool>>)
    requires
        well_formed(cells),
    ensures
        well_formed(next_generation(cells)),
{
    next_generation_keeps_dimensions(cells);
    next_generation_border_dead(cells);
}

/// The next generation is a function of the field alone: equal fields have
/// equal successors.
pub proof fn next_generation_deterministic(a: Seq<Seq<bool>>, b: Seq<Seq<bool>>)
    requires
        a == b,
    ensures
        next_generation(a) == next_generation(b),
{
}

/// Reading row by row, a cell of an earlier row comes before every cell of
/// a later one: with rows of `m` cells, `a * m + i < b * m + x` where
/// `a < b` and both `i` and `x` are columns.
pub proof fn row_major_order(m: int, a: int, i: int, b: int, x: int)
    requires
        a < b,
        0 <= i < m,
        0 <= x < m,
    ensures
        a * m + i < b * m + x,
{
    assert((a + 1) * m <= b * m) by (nonlinear_arith)
        requires
            a + 1 <= b,
            0 < m,
    ;
    assert((a + 1) * m == a * m + m) by (nonlinear_arith);
}

/// Every interior cell has a place among the interior cells, and no two
/// share one.
pub proof fn interior_index_is_a_numbering(cells: Seq<Seq<bool>>)
    ensures
        forall|y: int, x: int| #[trigger]
            is_interior(cells, y, x) ==> 0 <= interior_index(cells, y, x) < interior_count(cells),
        forall|y: int, x: int, j: int, i: int|
            #[trigger] is_interior(cells, y, x) && #[trigger] is_interior(cells, j, i)
                && interior_index(cells, y, x) == interior_index(cells, j, i) ==> y == j && x == i,
{
    let m = width(cells) - 2;
    assert forall|y: int, x: int| #[trigger] is_interior(cells, y, x) implies 0 <= interior_index(
        cells,
        y,
        x,
    ) < interior_count(cells) by {
        row_major_order(m, -1, m - 1, y - 1, x - 1);
        row_major_order(m, y - 1, x - 1, height(cells) - 2, 0);
    }
    assert forall|y: int, x: int, j: int, i: int|
        #[trigger] is_interior(cells, y, x) && #[trigger] is_interior(cells, j, i)
            && interior_index(cells, y, x) == interior_index(cells, j, i) implies y == j && x
        == i by {
        if y < j {
            row_major_order(m, y - 1, x - 1, j - 1, i - 1);
        }
        if j < y {
            row_major_order(m, j - 1, i - 1, y - 1, x - 1);
        }
    }
}

/// The first cell of a row comes right after the last cell of the row
/// above.
pub proof fn next_row_starts_where_this_ends(cells: Seq<Seq<bool>>, y: int)
    ensures
        interior_index(cells, y + 1, 1) == interior_index(cells, y, width(cells) - 1),
{
    let m = width(cells) - 2;
    assert(y * m == (y - 1) * m + m) by (nonlinear_arith);
}

/// The place after the last interior cell is the number of interior cells.
pub proof fn last_row_ends_the_interior(cells: Seq<Seq<bool>>)
    requires
        height(cells) >= 2,
        width(cells) >= 2,
    ensures
        interior_index(cells, height(cells) - 1, 1) == interior_count(cells),
{
    assert((height(cells) - 2) * (width(cells) - 2) >= 0) by (nonlinear_arith)
        requires
            height(cells) - 2 >= 0,
            width(cells) - 2 >= 0,
    ;
}

/// Filling no cell leaves the field; filling every interior cell fills the
/// field.
pub proof fn filled_to_ends(cells: Seq<Seq<bool>>, draws: Seq<bool>)
    requires
        rectangular(cells),
    ensures
        filled_to(cells, draws, 0) == cells,
        filled_to(cells, draws, interior_count(cells) as int) == filled(cells, draws),
{
    interior_index_is_a_numbering(cells);
    assert(filled_to(cells, draws, 0) =~~= cells);
    assert(filled_to(cells, draws, interior_count(cells) as int) =~~= filled(cells, draws));
}

/// Filling one cell more is setting the interior cell whose place is `n` to
/// the draw number `n`.
pub proof fn filled_to_next(cells: Seq<Seq<bool>>, draws: Seq<bool>, y: int, x: int)
    requires
        rectangular(cells),
        is_interior(cells, y, x),
    ensures
        filled_to(cells, draws, interior_index(cells, y, x) + 1) == filled_to(
            cells,
            draws,
            interior_index(cells, y, x),
        ).update(
            y,
            filled_to(cells, draws, interior_index(cells, y, x))[y].update(
                x,
                draws[interior_index(cells, y, x)],
            ),
        ),
{
    let n = interior_index(cells, y, x);
    let before = filled_to(cells, draws, n);
    let after = before.update(y, before[y].update(x, draws[n]));
    interior_index_is_a_numbering(cells);
    assert forall|j: int, i: int| 0 <= j < height(cells) && 0 <= i < width(cells) implies filled_to(
        cells,
        draws,
        n + 1,
    )[j][i] == after[j][i] by {
        if is_interior(cells, j, i) && interior_index(cells, j, i) == n {
            assert(is_interior(cells, y, x));
        }
    }
    assert(filled_to(cells, draws, n + 1) =~~= after);
}

/// Filling keeps a field well formed: the sides stay and the border is not
/// written.
pub proof fn filled_well_formed(cells: Seq<Seq<bool>>, draws: Seq<bool>)
    requires
        well_formed(cells),
    ensures
        well_formed(filled(cells, draws)),
        height(filled(cells, draws)) == height(cells),
        width(filled(cells, draws)) == width(cells),
{
    let after = filled(cells, draws);
    assert forall|y: int, x: int| on_border(after, y, x) implies !(#[trigger] after[y][x]) by {
        assert(on_border(cells, y, x));
        assert(!cells[y][x]);
    }
}

/// Filling overwrites the interior without reading it: two well-formed
/// fields of equal sides that are filled with the same draws become equal.
pub proof fn filled_forgets_the_interior(a: Seq<Seq<bool>>, b: Seq<Seq<bool>>, draws: Seq<bool>)
    requires
        well_formed(a),
        well_formed(b),
        height(a) == height(b),
        width(a) == width(b),
    ensures
        filled(a, draws) == filled(b, draws),
{
    assert forall|y: int, x: int| 0 <= y < height(a) && 0 <= x < width(a) implies filled(
        a,
        draws,
    )[y][x] == filled(b, draws)[y][x] by {
        if !is_interior(a, y, x) {
            assert(on_border(a, y, x) && on_border(b, y, x));
            assert(!a[y][x] && !b[y][x]);
        }
    }
    assert(filled(a, draws) =~~= filled(b, draws));
}

/// How many of the states are alive.
pub open spec fn live_count(states: Seq<bool>) -> nat {
    states.filter(|alive: bool| alive).len()
}

/// The interior of a filled field, read row by row, is the draws: each draw
/// went to one cell and each interior cell took one draw, in order. So as
/// many interior cells are alive as draws are.
pub proof fn interior_of_filled(cells: Seq<Seq<bool>>, draws: Seq<bool>)
    requires
        rectangular(cells),
        draws.len() == interior_count(cells),
    ensures
        interior(filled(cells, draws)) == draws,
        live_count(interior(filled(cells, draws))) == live_count(draws),
{
    let after = filled(cells, draws);
    let m = width(cells) - 2;
    assert(interior_count(after) == interior_count(cells));
    assert forall|k: int| 0 <= k < draws.len() implies interior(after)[k] == draws[k] by {
        assert(m > 0 && height(cells) - 2 > 0) by (nonlinear_arith)
            requires
                0 <= k < (height(cells) - 2) * m,
                height(cells) >= 2,
                m >= 0,
        ;
        let q = k / m;
        let r = k % m;
        lemma_fundamental_div_mod(k, m);
        lemma_mod_bound(k, m);
        lemma_div_pos_is_pos(k, m);
        assert(q < height(cells) - 2) by (nonlinear_arith)
            requires
                k == m * q + r,
                0 <= r,
                m > 0,
                k < (height(cells) - 2) * m,
        ;
        assert(q * m == m * q) by (nonlinear_arith);
        assert(is_interior(cells, 1 + q, 1 + r));
        assert(interior_index(cells, 1 + q, 1 + r) == k);
    }
    assert(interior(after) =~= draws);
}

} // verus!
