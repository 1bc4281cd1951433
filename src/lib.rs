//! Conway's Game of Life on a fixed, bounded 100 x 100 grid, with verified
//! neighbor indexing, a simultaneous generation step and the decisions of the
//! tick driver.

pub mod topology;
pub mod rules;
pub mod grid;
pub mod driver;
