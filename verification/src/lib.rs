//! The simulation core of a Conway's Game of Life sandbox: the grid of
//! tri-state cells, the generation step and the run/stop state machine.

pub mod cell;
pub mod changes;
pub mod grid;
pub mod interaction;
pub mod menu;
pub mod run_state;
pub mod step;
