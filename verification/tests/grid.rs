use game_of_life::cell::{CellChange, CellState};
use game_of_life::grid::{count_alive_neighbors, GridError, GridModel, GRID_SIZE};

fn filled(size: usize, state: CellState) -> GridModel {
    let mut grid = GridModel::new(size).unwrap();
    for y in 0..size {
        for x in 0..size {
            grid.set(x, y, state).unwrap();
        }
    }
    grid
}

#[test]
fn new_grid_is_all_empty() {
    let grid = GridModel::new(4).unwrap();
    assert_eq!(grid.size(), 4);
    for y in 0..4 {
        for x in 0..4 {
            assert_eq!(grid.get(x, y), Ok(CellState::Empty));
        }
    }
}

#[test]
fn standard_grid_has_the_startup_size() {
    let grid = GridModel::standard();
    assert_eq!(GRID_SIZE, 100);
    assert_eq!(grid.size(), 100);
    assert_eq!(grid.get(0, 0), Ok(CellState::Empty));
    assert_eq!(grid.get(99, 99), Ok(CellState::Empty));
    assert_eq!(grid.get(100, 99), Err(GridError::OutOfBounds));
}

#[test]
fn new_refuses_a_side_whose_square_cannot_be_addressed() {
    assert!(GridModel::new(usize::MAX).is_none());
}

#[test]
fn empty_grid_has_no_cells() {
    let grid = GridModel::new(0).unwrap();
    assert_eq!(grid.size(), 0);
    assert_eq!(grid.get(0, 0), Err(GridError::OutOfBounds));
    assert!(grid.snapshot().is_empty());
}

#[test]
fn get_out_of_bounds_fails() {
    let grid = GridModel::new(3).unwrap();
    assert_eq!(grid.get(3, 0), Err(GridError::OutOfBounds));
    assert_eq!(grid.get(0, 3), Err(GridError::OutOfBounds));
    assert_eq!(grid.get(usize::MAX, usize::MAX), Err(GridError::OutOfBounds));
    assert_eq!(grid.get(2, 2), Ok(CellState::Empty));
}

#[test]
fn set_overwrites_one_cell_and_reports_it() {
    let mut grid = GridModel::new(3).unwrap();
    assert_eq!(
        grid.set(2, 1, CellState::Alive),
        Ok(CellChange { x: 2, y: 1, state: CellState::Alive })
    );
    for y in 0..3 {
        for x in 0..3 {
            let expected = if (x, y) == (2, 1) { CellState::Alive } else { CellState::Empty };
            assert_eq!(grid.get(x, y), Ok(expected));
        }
    }
    assert_eq!(
        grid.set(2, 1, CellState::Dead),
        Ok(CellChange { x: 2, y: 1, state: CellState::Dead })
    );
    assert_eq!(grid.get(2, 1), Ok(CellState::Dead));
    assert_eq!(grid.get(1, 2), Ok(CellState::Empty));
}

#[test]
fn set_out_of_bounds_fails_and_changes_nothing() {
    let mut grid = GridModel::new(3).unwrap();
    grid.set(1, 1, CellState::Alive).unwrap();
    let before = grid.snapshot();
    assert_eq!(grid.set(3, 1, CellState::Alive), Err(GridError::OutOfBounds));
    assert_eq!(grid.set(1, 3, CellState::Dead), Err(GridError::OutOfBounds));
    assert_eq!(grid.snapshot(), before);
}

#[test]
fn neighbor_count_in_a_full_3x3_grid() {
    let grid = filled(3, CellState::Alive);
    assert_eq!(grid.neighbors_alive_count(1, 1), Ok(8));
    assert_eq!(grid.neighbors_alive_count(0, 0), Ok(3));
    assert_eq!(grid.neighbors_alive_count(2, 0), Ok(3));
    assert_eq!(grid.neighbors_alive_count(0, 2), Ok(3));
    assert_eq!(grid.neighbors_alive_count(2, 2), Ok(3));
    assert_eq!(grid.neighbors_alive_count(1, 0), Ok(5));
    assert_eq!(grid.neighbors_alive_count(0, 1), Ok(5));
    assert_eq!(grid.neighbors_alive_count(2, 1), Ok(5));
    assert_eq!(grid.neighbors_alive_count(1, 2), Ok(5));
}

#[test]
fn neighbor_count_does_not_wrap_around() {
    let mut grid = GridModel::new(4).unwrap();
    grid.set(3, 0, CellState::Alive).unwrap();
    grid.set(0, 3, CellState::Alive).unwrap();
    grid.set(3, 3, CellState::Alive).unwrap();
    assert_eq!(grid.neighbors_alive_count(0, 0), Ok(0));
    assert_eq!(grid.neighbors_alive_count(2, 2), Ok(1));
}

#[test]
fn neighbor_count_skips_the_cell_itself_and_dead_or_empty_cells() {
    let mut grid = GridModel::new(3).unwrap();
    grid.set(1, 1, CellState::Alive).unwrap();
    grid.set(0, 0, CellState::Dead).unwrap();
    grid.set(2, 2, CellState::Alive).unwrap();
    assert_eq!(grid.neighbors_alive_count(1, 1), Ok(1));
    assert_eq!(grid.neighbors_alive_count(0, 0), Ok(1));
    assert_eq!(grid.neighbors_alive_count(2, 0), Ok(1));
    assert_eq!(grid.neighbors_alive_count(2, 1), Ok(2));
}

#[test]
fn neighbor_count_out_of_bounds_fails() {
    let grid = filled(3, CellState::Alive);
    assert_eq!(grid.neighbors_alive_count(3, 1), Err(GridError::OutOfBounds));
    assert_eq!(grid.neighbors_alive_count(1, 3), Err(GridError::OutOfBounds));
}

#[test]
fn snapshot_is_row_by_row() {
    let mut grid = GridModel::new(2).unwrap();
    grid.set(1, 0, CellState::Alive).unwrap();
    grid.set(0, 1, CellState::Dead).unwrap();
    assert_eq!(grid.snapshot(), vec![false, true, false, false]);
}

#[test]
fn count_over_a_snapshot() {
    let life = vec![true, true, true, false, true, false, false, false, true];
    assert_eq!(count_alive_neighbors(&life, 3, 1, 1), 4);
    assert_eq!(count_alive_neighbors(&life, 3, 0, 0), 2);
    assert_eq!(count_alive_neighbors(&life, 3, 2, 2), 1);
    assert_eq!(count_alive_neighbors(&life, 3, 0, 2), 1);
    assert_eq!(count_alive_neighbors(&life, 3, 2, 1), 4);
}

#[test]
fn cell_state_is_alive() {
    assert!(CellState::Alive.is_alive());
    assert!(!CellState::Dead.is_alive());
    assert!(!CellState::Empty.is_alive());
}
