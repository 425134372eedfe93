use base::grid::{CellState, Grid};

#[test]
fn new_grid_is_empty() {
    let g = Grid::new(4, 3);
    assert_eq!(g.states.width(), 4);
    assert_eq!(g.states.height(), 3);
    assert_eq!(g.states.size().num_elements(), 12);
    assert!(g.states.as_row_major().iter().all(|c| *c == CellState::Empty));
}

#[test]
fn cell_state_default_is_empty() {
    assert_eq!(CellState::default(), CellState::Empty);
    assert!(CellState::Empty < CellState::Mine);
    assert!(CellState::Mine < CellState::NonPlayable);
}
