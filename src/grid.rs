use crate::array2::Array2;
use vstd::prelude::*;

verus! {

/// What occupies one cell of a board.
#[derive(Debug, Clone, Copy, PartialEq, Eq, PartialOrd, Ord, Hash, Structural)]
pub enum CellState {
    Empty,
    Mine,
    NonPlayable,
}

impl Default for CellState {
    fn default() -> (r: CellState)
        ensures
            r == CellState::Empty,
    {
        CellState::Empty
    }
}

/// A board: one state per cell.
#[derive(Debug, Clone)]
pub struct Grid {
    pub states: Array2<CellState>,
}

impl Grid {
    /// A `width` by `height` board whose cells are all empty.
    pub fn new(width: i32, height: i32) -> (r: Self)
        requires
            width >= 0,
            height >= 0,
            width * height <= i32::MAX,
        ensures
            r.states.wf(),
            r.states.shape().width == width,
            r.states.shape().height == height,
            forall|i: int| 0 <= i < r.states@.len() ==> #[trigger] r.states@[i] == CellState::Empty,
    {
        let states = Array2::new(width, height);
        Grid { states }
    }
}

} // verus!
