//! A generalized Langton's-ant ("turmite") simulation: a sparse, unbounded
//! two-dimensional grid of cell states and a population of agents whose
//! turning is dictated by the state of the cell they occupy, and which in
//! turn rewrite that cell's state on every tick.

pub mod direction;
pub mod rule;
pub mod engine;
