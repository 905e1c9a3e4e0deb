//! Two classic patterns and what a generation makes of them.

use crate::rules::{is_interior, next_cell, next_generation};
use vstd::prelude::*;

verus! {

/// The field of `h` rows and `w` columns whose only live cells are the square
/// of two by two with its top left corner at `(y, x)`.
pub open spec fn block(h: nat, w: nat, y: int, x: int) -> Seq<Seq<bool>> {
    Seq::new(h, |j: int| Seq::new(w, |i: int| y <= j <= y + 1 && x <= i <= x + 1))
}

/// The field of `h` rows and `w` columns whose only live cells are the three
/// in row `y` around column `x`.
pub open spec fn blinker_flat(h: nat, w: nat, y: int, x: int) -> Seq<Seq<bool>> {
    Seq::new(h, |j: int| Seq::new(w, |i: int| j == y && x - 1 <= i <= x + 1))
}

/// The field of `h` rows and `w` columns whose only live cells are the three
/// in column `x` around row `y`.
pub open spec fn blinker_upright(h: nat, w: nat, y: int, x: int) -> Seq<Seq<bool>> {
    Seq::new(h, |j: int| Seq::new(w, |i: int| i == x && y - 1 <= j <= y + 1))
}

/// A block that lies in the interior is a still life: a generation leaves
/// the field as it is.
pub proof fn block_is_still(h: nat, w: nat, y: int, x: int)
    requires
        1 <= y,
        y + 2 < h,
        1 <= x,
        x + 2 < w,
    ensures
        next_generation(block(h, w, y, x)) == block(h, w, y, x),
{
    let cells = block(h, w, y, x);
    assert forall|j: int, i: int| 0 <= j < h && 0 <= i < w implies next_cell(cells, j, i)
        == cells[j][i] by {
        assert(is_interior(cells, j, i) <==> 1 <= j < h - 1 && 1 <= i < w - 1);
    }
    assert(next_generation(cells) =~~= cells);
}

/// A blinker whose two forms lie in the interior oscillates: a generation
/// turns the row of three into the column of three through the same centre,
/// and the column back into the row.
pub proof fn blinker_oscillates(h: nat, w: nat, y: int, x: int)
    requires
        2 <= y,
        y + 2 < h,
        2 <= x,
        x + 2 < w,
    ensures
        next_generation(blinker_flat(h, w, y, x)) == blinker_upright(h, w, y, x),
        next_generation(blinker_upright(h, w, y, x)) == blinker_flat(h, w, y, x),
{
    let flat = blinker_flat(h, w, y, x);
    let upright = blinker_upright(h, w, y, x);
    assert forall|j: int, i: int| 0 <= j < h && 0 <= i < w implies next_cell(flat, j, i)
        == upright[j][i] by {
        assert(is_interior(flat, j, i) <==> 1 <= j < h - 1 && 1 <= i < w - 1);
    }
    assert forall|j: int, i: int| 0 <= j < h && 0 <= i < w implies next_cell(upright, j, i)
        == flat[j][i] by {
        assert(is_interior(upright, j, i) <==> 1 <= j < h - 1 && 1 <= i < w - 1);
    }
    assert(next_generation(flat) =~~= upright);
    assert(next_generation(upright) =~~= flat);
}

} // verus!
