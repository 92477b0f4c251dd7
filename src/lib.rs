//! Terminal charts drawn with braille, sextant, quadrant and partial block glyphs.
//!
//! Values scaled onto an axis of dots (`scale`) become runs of dots cut into groups
//! (`dots`); the groups of several input lines are stacked into glyph cells (`cells`), which
//! the glyph families encode (`braille`, `sextants`, `mini_blocks`) and the printers write out
//! line by line (`graph`). Partial block charts (`blocks`) and the scatter grid (`grid`) share
//! the same dot axis.
pub mod blocks;
pub mod braille;
pub mod cells;
pub mod dots;
pub mod graph;
pub mod grid;
pub mod mini_blocks;
pub mod scale;
pub mod sextants;
pub mod style;
mod text;

pub use style::{GraphKind, GraphStyle};
