use vstd::prelude::*;

use crate::mark::Mark;

verus! {

/// The occupancy of one board slot: empty, or marked by one of the players.
#[derive(Copy, Clone, Debug, PartialEq, Eq, Structural)]
pub enum CellState {
    Marked(Mark),
    Empty,
}

impl CellState {
    /// Whether some player has already played this slot, whoever it was.
    pub fn is_marked(self) -> (b: bool)
        ensures
            b == (self is Marked),
    {
        if let CellState::Marked(_) = self {
            true
        } else {
            false
        }
    }
}

impl Default for CellState {
    fn default() -> (s: Self)
        ensures
            s == CellState::Empty,
    {
        CellState::Empty
    }
}

/// One board slot: its occupancy, plus a transient rendering hint that marks
/// the slots of a discovered winning line. The hint has no effect on the
/// game's logic.
#[derive(Copy, Clone, Debug, PartialEq, Eq, Structural)]
pub struct Cell {
    pub state: CellState,
    pub winning: bool,
}

impl Default for Cell {
    fn default() -> (c: Self)
        ensures
            c == (Cell { state: CellState::Empty, winning: false }),
    {
        Cell { state: CellState::Empty, winning: false }
    }
}

} // verus!
