//! Drawing a grid: one character for each block of two by two interior
//! cells.

use crate::glyph::{glyph, glyph_of};
use crate::grid::Grid;
use crate::rules::{height, logical_height, logical_width, width};
use vstd::prelude::*;

verus! {

/// The character in row `row`, column `col` of the picture of a field: that
/// of the block whose top left cell is at `(2 * row + 1, 2 * col + 1)`.
pub open spec fn block_glyph(cells: Seq<Seq<bool>>, row: int, col: int) -> char {
    let y = 2 * row + 1;
    let x = 2 * col + 1;
    glyph_of(cells[y][x], cells[y + 1][x], cells[y][x + 1], cells[y + 1][x + 1])
}

/// The picture of a field: as many rows and columns of characters as the
/// field has logical rows and columns.
pub open spec fn frame(cells: Seq<Seq<bool>>) -> Seq<Seq<char>> {
    Seq::new(
        logical_height(cells),
        |row: int| Seq::new(logical_width(cells), |col: int| block_glyph(cells, row, col)),
    )
}

/// The rows of characters that a vector of rows holds.
pub open spec fn lines(out: Vec<Vec<char>>) -> Seq<Seq<char>> {
    Seq::new(out@.len(), |row: int| out@[row]@)
}

/// Draws the grid: the rows of its picture from top to bottom, each from
/// left to right.
pub fn render(grid: &Grid) -> (out: Vec<Vec<char>>)
    ensures
        lines(out) == frame(grid@),
        out@.len() == logical_height(grid@),
        forall|row: int| 0 <= row < out@.len() ==> (#[trigger] out@[row])@.len() == logical_width(grid@),
{
    let h: usize = grid.height();
    let w: usize = grid.width();
    let rows: usize = grid.logical_height();
    let cols: usize = grid.logical_width();
    let mut out: Vec<Vec<char>> = Vec::new();
    let mut y: usize = 1;
    while y < h - 1
        invariant
            h == height(grid@),
            w == width(grid@),
            h == 2 * rows + 2,
            w == 2 * cols + 2,
            rows == logical_height(grid@),
            cols == logical_width(grid@),
            y == 2 * out@.len() + 1,
            y <= h - 1,
            forall|row: int| 0 <= row < out@.len() ==> (#[trigger] out@[row])@ == frame(grid@)[row],
        decreases h - y,
    {
        let mut line: Vec<char> = Vec::new();
        let mut x: usize = 1;
        while x < w - 1
            invariant
                h == height(grid@),
                w == width(grid@),
                h == 2 * rows + 2,
                w == 2 * cols + 2,
                y + 1 < h,
                y == 2 * out@.len() + 1,
                x == 2 * line@.len() + 1,
                x <= w - 1,
                forall|col: int| 0 <= col < line@.len() ==> line@[col] == block_glyph(grid@, out@.len() as int, col),
            decreases w - x,
        {
            let c = glyph(grid.get(y, x), grid.get(y + 1, x), grid.get(y, x + 1), grid.get(y + 1, x + 1));
            line.push(c);
            x += 2;
        }
        assert(line@ =~= frame(grid@)[out@.len() as int]);
        out.push(line);
        y += 2;
    }
    assert(lines(out) =~~= frame(grid@));
    out
}

} // verus!
