//! Conway's Game of Life on a bounded grid with a permanently dead border,
//! drawn two cells by two cells with Unicode quadrant-block characters.
//!
//! * [`rules`] is the mathematical model: fields of cells, the neighbour
//!   count and the transition rule, with the laws that hold of them.
//! * [`grid`] is the executable grid: creation, seeding and stepping.
//! * [`patterns`] proves what a generation makes of a block and a blinker.
//! * [`glyph`] maps a two-by-two block of cells to its character.
//! * [`render`] turns a grid into rows of characters.
//! * [`random`] is the boundary to the `rand` crate.

pub mod glyph;
pub mod grid;
pub mod patterns;
pub mod random;
pub mod render;
pub mod rules;

pub use glyph::glyph;
pub use grid::Grid;
pub use render::render;
