//! Renders a sparse three-dimensional grid of typed cells onto a
//! two-dimensional character display: one glyph and one pair of colors per
//! (x, y) screen column, found by scanning down the z-axis and compositing
//! layers according to per-cell occlusion and color rules.

pub mod cell;
pub mod grid;
mod rng;
