//! The sixteen characters that draw a block of two by two cells.
//!
//! The four cells of a block are always named in the order top left, bottom
//! left, top right, bottom right.

use vstd::prelude::*;

verus! {

/// The number of a block: its four cells read as binary digits, the top left
/// cell the highest and the bottom right cell the lowest.
pub open spec fn block_code(tl: bool, bl: bool, tr: bool, br: bool) -> int {
    (if tl { 8int } else { 0 }) + (if bl { 4int } else { 0 }) + (if tr { 2int } else { 0 }) + (if br {
        1int
    } else {
        0
    })
}

/// The characters by block number: a space for the empty block, the full
/// block for the full one, and between them the quadrant and half blocks
/// that fill exactly the quadrants of the live cells.
pub open spec fn glyph_table() -> Seq<char> {
    seq![
        '\u{20}',
        '\u{2597}',
        '\u{259D}',
        '\u{2590}',
        '\u{2596}',
        '\u{2584}',
        '\u{259E}',
        '\u{259F}',
        '\u{2598}',
        '\u{259A}',
        '\u{2580}',
        '\u{259C}',
        '\u{258C}',
        '\u{2599}',
        '\u{259B}',
        '\u{2588}',
    ]
}

/// The character that draws a block.
pub open spec fn glyph_of(tl: bool, bl: bool, tr: bool, br: bool) -> char {
    glyph_table()[block_code(tl, bl, tr, br)]
}

/// The character that draws the block with the given top left, bottom left,
/// top right and bottom right cells.
pub fn glyph(tl: bool, bl: bool, tr: bool, br: bool) -> (c: char)
    ensures
        c == glyph_of(tl, bl, tr, br),
{
    match (tl, bl, tr, br) {
        (false, false, false, false) => ' ',
        (false, false, false, true) => '▗',
        (false, false, true, false) => '▝',
        (false, false, true, true) => '▐',
        (false, true, false, false) => '▖',
        (false, true, false, true) => '▄',
        (false, true, true, false) => '▞',
        (false, true, true, true) => '▟',
        (true, false, false, false) => '▘',
        (true, false, false, true) => '▚',
        (true, false, true, false) => '▀',
        (true, false, true, true) => '▜',
        (true, true, false, false) => '▌',
        (true, true, false, true) => '▙',
        (true, true, true, false) => '▛',
        (true, true, true, true) => '█',
    }
}

/// No two blocks share a character: a drawn character tells the four cells
/// that it stands for.
pub proof fn glyph_is_injective(a: (bool, bool, bool, bool), b: (bool, bool, bool, bool))
    requires
        glyph_of(a.0, a.1, a.2, a.3) == glyph_of(b.0, b.1, b.2, b.3),
    ensures
        a == b,
{
}

} // verus!
