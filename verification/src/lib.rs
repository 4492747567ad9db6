//! A toroidal cellular automaton in the style of Conway's Game of Life,
//! where each cell carries an intensity level from 0 (fully dead) to 7
//! (fully alive). Intermediate levels let births and deaths render as
//! gradual fades: `tick` applies the neighborhood rule for one generation,
//! and `tock` snaps just-born and just-dying cells to their final level.

pub mod engine;
pub mod laws;
pub mod rules;

pub use engine::InvalidDimension;
pub use engine::Universe;
