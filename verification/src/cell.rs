//! The life status of one grid position.

use vstd::prelude::*;

verus! {

/// The status of a cell. `Empty` was never touched, `Dead` was alive once;
/// the two count alike as neighbours.
#[derive(Clone, Copy, Debug, PartialEq, Eq, Structural)]
pub enum CellState {
    Alive,
    Dead,
    Empty,
}

impl CellState {
    /// Whether this status counts as a live neighbour.
    pub open spec fn alive(self) -> bool {
        self == CellState::Alive
    }

    /// Whether this status counts as a live neighbour.
    pub fn is_alive(self) -> (r: bool)
        ensures
            r == self.alive(),
    {
        match self {
            CellState::Alive => true,
            CellState::Dead => false,
            CellState::Empty => false,
        }
    }
}

/// One grid position. The grid owns its cells; they are made once and only
/// their status changes.
#[derive(Clone, Copy, Debug, PartialEq, Eq, Structural)]
pub struct Cell {
    pub alive: CellState,
}

/// A notification for whoever draws the grid: the cell at `(x, y)` was
/// written and now holds `state`.
#[derive(Clone, Copy, Debug, PartialEq, Eq, Structural)]
pub struct CellChange {
    pub x: usize,
    pub y: usize,
    pub state: CellState,
}

} // verus!
