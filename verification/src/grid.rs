//! The fixed-size square grid of cells, addressed by `(x, y)`.

use vstd::arithmetic::div_mod::{
    lemma_div_pos_is_pos, lemma_fundamental_div_mod, lemma_mod_pos_bound,
};
use vstd::prelude::*;
use crate::cell::{Cell, CellChange, CellState};

verus! {

/// The side length of the grid that the sandbox starts with.
pub const GRID_SIZE: usize = 100;

/// Why an access to the grid was refused.
#[derive(Clone, Copy, Debug, PartialEq, Eq, Structural)]
pub enum GridError {
    /// A coordinate was not below the grid's side length.
    OutOfBounds,
}

/// 1 for `true`, 0 for `false`.
pub open spec fn indicator(b: bool) -> nat {
    if b { 1 } else { 0 }
}

/// Whether the cell at `(x, y)` of a row-major life map of side `dim` is
/// alive. Positions outside the square are not alive: the boundary is
/// clamped, nothing wraps around.
pub open spec fn life_at(life: Seq<bool>, dim: nat, x: int, y: int) -> bool {
    0 <= x < dim && 0 <= y < dim && life[x + y * dim]
}

/// The number of live cells among the eight Moore neighbours of `(x, y)`.
pub open spec fn moore_count(life: Seq<bool>, dim: nat, x: int, y: int) -> nat {
    indicator(life_at(life, dim, x - 1, y - 1))
        + indicator(life_at(life, dim, x - 1, y))
        + indicator(life_at(life, dim, x - 1, y + 1))
        + indicator(life_at(life, dim, x, y - 1))
        + indicator(life_at(life, dim, x, y + 1))
        + indicator(life_at(life, dim, x + 1, y - 1))
        + indicator(life_at(life, dim, x + 1, y))
        + indicator(life_at(life, dim, x + 1, y + 1))
}

/// A side length whose square fits in `usize` is below 2^32.
pub proof fn lemma_side_bound(dim: int)
    requires
        0 <= dim,
        dim * dim <= usize::MAX,
    ensures
        dim <= 0xFFFF_FFFF,
{
    if dim > 0xFFFF_FFFF {
        assert(dim * dim >= 0x1_0000_0000 * 0x1_0000_0000) by (nonlinear_arith)
            requires
                dim >= 0x1_0000_0000,
        ;
    }
}

/// The row-major index of an in-bounds position is below `dim * dim`.
pub proof fn lemma_index_in_range(x: int, y: int, dim: int)
    requires
        0 <= x < dim,
        0 <= y < dim,
    ensures
        0 <= y * dim,
        0 <= x + y * dim < dim * dim,
        y * dim + dim <= dim * dim,
{
    assert(y * dim >= 0) by (nonlinear_arith)
        requires
            y >= 0,
            dim >= 0,
    ;
    assert((y + 1) * dim <= dim * dim) by (nonlinear_arith)
        requires
            y + 1 <= dim,
            dim >= 0,
    ;
    assert((y + 1) * dim == y * dim + dim) by (nonlinear_arith);
}

/// Two in-bounds positions with the same row-major index are the same.
pub proof fn lemma_index_injective(x1: int, y1: int, x2: int, y2: int, dim: int)
    requires
        0 <= x1 < dim,
        0 <= x2 < dim,
        0 <= y1,
        0 <= y2,
        x1 + y1 * dim == x2 + y2 * dim,
    ensures
        x1 == x2,
        y1 == y2,
{
    if y1 < y2 {
        assert(y2 * dim - y1 * dim >= dim) by (nonlinear_arith)
            requires
                y2 - y1 >= 1,
                dim > 0,
        ;
    } else if y2 < y1 {
        assert(y1 * dim - y2 * dim >= dim) by (nonlinear_arith)
            requires
                y1 - y2 >= 1,
                dim > 0,
        ;
    }
}

/// Each index below `dim * dim` is the row-major index of one in-bounds
/// position: column `i % dim` of row `i / dim`.
pub proof fn lemma_position_of_index(i: int, dim: int)
    requires
        0 <= i < dim * dim,
        0 <= dim,
    ensures
        0 <= i % dim < dim,
        0 <= i / dim < dim,
        i % dim + (i / dim) * dim == i,
{
    assert(dim > 0) by (nonlinear_arith)
        requires
            0 <= i < dim * dim,
            0 <= dim,
    ;
    lemma_fundamental_div_mod(i, dim);
    lemma_mod_pos_bound(i, dim);
    lemma_div_pos_is_pos(i, dim);
    let row = i / dim;
    assert(dim * row == row * dim) by (nonlinear_arith);
    if row >= dim {
        assert(row * dim >= dim * dim) by (nonlinear_arith)
            requires
                row >= dim,
                dim > 0,
        ;
    }
}

/// The grid: exactly one cell for each `(x, y)` with both coordinates below
/// the side length, which never changes.
pub struct GridModel {
    size: usize,
    cells: Vec<Cell>,
}

impl View for GridModel {
    type V = Seq<CellState>;

    /// The statuses of the cells, row by row: the cell at `(x, y)` stands at
    /// `x + y * dim()`.
    closed spec fn view(&self) -> Seq<CellState> {
        Seq::new(self.cells@.len(), |i: int| self.cells@[i].alive)
    }
}

impl GridModel {
    /// The invariant: there are `dim() * dim()` cells, and that many can be
    /// addressed.
    pub closed spec fn wf(&self) -> bool {
        &&& self.size * self.size <= usize::MAX
        &&& self.cells@.len() == self.size * self.size
    }

    /// The side length.
    pub closed spec fn dim(&self) -> nat {
        self.size as nat
    }

    /// The status of the cell at `(x, y)`.
    pub open spec fn at(&self, x: int, y: int) -> CellState {
        self@[x + y * self.dim()]
    }

    /// Whether `(x, y)` names a cell of this grid.
    pub open spec fn in_bounds(&self, x: int, y: int) -> bool {
        0 <= x < self.dim() && 0 <= y < self.dim()
    }

    /// For each cell, row by row, whether it is alive.
    pub open spec fn life(&self) -> Seq<bool> {
        self@.map_values(|state: CellState| state.alive())
    }

    /// Whether `(x, y)` names a cell of this grid that is alive.
    pub open spec fn alive_at(&self, x: int, y: int) -> bool {
        self.in_bounds(x, y) && self.at(x, y).alive()
    }

    /// The number of live cells among the eight Moore neighbours of `(x, y)`;
    /// neighbours outside the grid are not counted.
    pub open spec fn alive_neighbors(&self, x: int, y: int) -> nat {
        indicator(self.alive_at(x - 1, y - 1))
            + indicator(self.alive_at(x - 1, y))
            + indicator(self.alive_at(x - 1, y + 1))
            + indicator(self.alive_at(x, y - 1))
            + indicator(self.alive_at(x, y + 1))
            + indicator(self.alive_at(x + 1, y - 1))
            + indicator(self.alive_at(x + 1, y))
            + indicator(self.alive_at(x + 1, y + 1))
    }

    /// Whether every cell of this grid holds `state`.
    pub open spec fn all_cells(&self, state: CellState) -> bool {
        forall|x: int, y: int| self.in_bounds(x, y) ==> self.at(x, y) == state
    }

    /// A well-formed grid holds `dim() * dim()` cells, and that many can be
    /// addressed.
    pub proof fn lemma_dim_fits(&self)
        requires
            self.wf(),
        ensures
            self@.len() == self.dim() * self.dim(),
            self.dim() * self.dim() <= usize::MAX,
    {
    }

    /// Two well-formed grids of one side length that hold the same in every
    /// cell have the same view.
    pub proof fn lemma_same_cells(&self, other: GridModel)
        requires
            self.wf(),
            other.wf(),
            self.dim() == other.dim(),
            forall|x: int, y: int| self.in_bounds(x, y) ==> self.at(x, y) == other.at(x, y),
        ensures
            self@ == other@,
    {
        let dim = self.dim() as int;
        assert forall|i: int| 0 <= i < self@.len() implies self@[i] == other@[i] by {
            lemma_position_of_index(i, dim);
            assert(self.at(i % dim, i / dim) == other.at(i % dim, i / dim));
        }
        assert(self@ =~= other@);
    }

    /// The life map agrees with the cells, position by position.
    pub proof fn lemma_life_at(&self, x: int, y: int)
        requires
            self.wf(),
        ensures
            life_at(self.life(), self.dim(), x, y) == self.alive_at(x, y),
    {
        if self.in_bounds(x, y) {
            lemma_index_in_range(x, y, self.size as int);
        }
    }

    /// Counting over the life map is counting over the cells.
    pub proof fn lemma_life_count(&self, x: int, y: int)
        requires
            self.wf(),
        ensures
            moore_count(self.life(), self.dim(), x, y) == self.alive_neighbors(x, y),
            self.alive_neighbors(x, y) <= 8,
    {
        self.lemma_life_at(x - 1, y - 1);
        self.lemma_life_at(x - 1, y);
        self.lemma_life_at(x - 1, y + 1);
        self.lemma_life_at(x, y - 1);
        self.lemma_life_at(x, y + 1);
        self.lemma_life_at(x + 1, y - 1);
        self.lemma_life_at(x + 1, y);
        self.lemma_life_at(x + 1, y + 1);
    }

    /// `total` cells, all `Empty`, for a grid of side `size`.
    fn empty_cells(size: usize, total: usize) -> (g: GridModel)
        requires
            total == size * size,
        ensures
            g.wf(),
            g.dim() == size,
            g.all_cells(CellState::Empty),
    {
        let mut cells: Vec<Cell> = Vec::new();
        let mut i: usize = 0;
        while i < total
            invariant
                i <= total,
                cells@.len() == i,
                forall|k: int| 0 <= k < i ==> (#[trigger] cells@[k]).alive == CellState::Empty,
            decreases total - i,
        {
            cells.push(Cell { alive: CellState::Empty });
            i += 1;
        }
        let g = GridModel { size, cells };
        proof {
            assert forall|x: int, y: int| g.in_bounds(x, y) implies g.at(x, y)
                == CellState::Empty by {
                lemma_index_in_range(x, y, size as int);
            }
        }
        g
    }

    /// A grid of side `size` with every cell `Empty`, where `size * size`
    /// cells can be addressed at all.
    pub fn new(size: usize) -> (r: Option<GridModel>)
        ensures
            r.is_some() == (size * size <= usize::MAX),
            r matches Some(g) ==> g.wf() && g.dim() == size && g.all_cells(CellState::Empty),
    {
        match size.checked_mul(size) {
            None => None,
            Some(total) => Some(GridModel::empty_cells(size, total)),
        }
    }

    /// The grid that the sandbox starts with: `GRID_SIZE` cells a side, all
    /// `Empty`.
    pub fn standard() -> (g: GridModel)
        ensures
            g.wf(),
            g.dim() == GRID_SIZE,
            g.all_cells(CellState::Empty),
    {
        GridModel::empty_cells(GRID_SIZE, GRID_SIZE * GRID_SIZE)
    }

    /// The side length.
    pub fn size(&self) -> (n: usize)
        ensures
            n == self.dim(),
    {
        self.size
    }

    /// The status of the cell at `(x, y)`, or `OutOfBounds` where a
    /// coordinate is not below the side length.
    pub fn get(&self, x: usize, y: usize) -> (r: Result<CellState, GridError>)
        requires
            self.wf(),
        ensures
            self.in_bounds(x as int, y as int) ==> r == Ok::<CellState, GridError>(
                self.at(x as int, y as int),
            ),
            !self.in_bounds(x as int, y as int) ==> r == Err::<CellState, GridError>(
                GridError::OutOfBounds,
            ),
    {
        if x >= self.size || y >= self.size {
            return Err(GridError::OutOfBounds);
        }
        proof {
            lemma_index_in_range(x as int, y as int, self.size as int);
        }
        Ok(self.cells[x + y * self.size].alive)
    }

    /// Overwrites the cell at `(x, y)` with `state`, whatever it held, and
    /// hands back the notification of that write; no other cell changes.
    /// Where a coordinate is not below the side length the grid stays as it
    /// is and `OutOfBounds` comes back.
    pub fn set(&mut self, x: usize, y: usize, state: CellState) -> (r: Result<
        CellChange,
        GridError,
    >)
        requires
            old(self).wf(),
        ensures
            final(self).wf(),
            final(self).dim() == old(self).dim(),
            old(self).in_bounds(x as int, y as int) ==> {
                &&& r == Ok::<CellChange, GridError>(CellChange { x, y, state })
                &&& final(self).at(x as int, y as int) == state
                &&& forall|x2: int, y2: int|
                    old(self).in_bounds(x2, y2) && (x2 != x || y2 != y) ==> final(self).at(x2, y2)
                        == old(self).at(x2, y2)
            },
            !old(self).in_bounds(x as int, y as int) ==> {
                &&& r == Err::<CellChange, GridError>(GridError::OutOfBounds)
                &&& *final(self) == *old(self)
            },
    {
        if x >= self.size || y >= self.size {
            return Err(GridError::OutOfBounds);
        }
        proof {
            lemma_index_in_range(x as int, y as int, self.size as int);
        }
        let idx: usize = x + y * self.size;
        self.cells.set(idx, Cell { alive: state });
        proof {
            assert forall|x2: int, y2: int|
                old(self).in_bounds(x2, y2) && (x2 != x || y2 != y) implies self.at(x2, y2)
                == old(self).at(x2, y2) by {
                lemma_index_in_range(x2, y2, self.size as int);
                if x2 + y2 * self.size == idx {
                    lemma_index_injective(x2, y2, x as int, y as int, self.size as int);
                }
            }
        }
        Ok(CellChange { x, y, state })
    }
    /// Whether `(x, y)` names a cell of this grid that is alive; the
    /// coordinates may lie outside it.
    fn cell_alive(&self, x: i64, y: i64) -> (r: bool)
        requires
            self.wf(),
        ensures
            r == self.alive_at(x as int, y as int),
    {
        proof {
            lemma_side_bound(self.size as int);
        }
        if x < 0 || y < 0 || x >= self.size as i64 || y >= self.size as i64 {
            return false;
        }
        proof {
            lemma_index_in_range(x as int, y as int, self.size as int);
        }
        self.cells[x as usize + y as usize * self.size].alive.is_alive()
    }

    /// The number of `Alive` cells among the eight Moore neighbours of
    /// `(x, y)`. Neighbours outside the grid are not counted, so a cell on an
    /// edge or in a corner has fewer of them. `OutOfBounds` where `(x, y)`
    /// itself is no cell of the grid.
    pub fn neighbors_alive_count(&self, x: usize, y: usize) -> (r: Result<u8, GridError>)
        requires
            self.wf(),
        ensures
            self.in_bounds(x as int, y as int) ==> r == Ok::<u8, GridError>(
                self.alive_neighbors(x as int, y as int) as u8,
            ),
            !self.in_bounds(x as int, y as int) ==> r == Err::<u8, GridError>(
                GridError::OutOfBounds,
            ),
            self.alive_neighbors(x as int, y as int) <= 8,
    {
        if x >= self.size || y >= self.size {
            return Err(GridError::OutOfBounds);
        }
        proof {
            lemma_side_bound(self.size as int);
        }
        let xi: i64 = x as i64;
        let yi: i64 = y as i64;
        let mut cnt: u8 = 0;
        if self.cell_alive(xi - 1, yi - 1) {
            cnt += 1;
        }
        if self.cell_alive(xi - 1, yi) {
            cnt += 1;
        }
        if self.cell_alive(xi - 1, yi + 1) {
            cnt += 1;
        }
        if self.cell_alive(xi, yi - 1) {
            cnt += 1;
        }
        if self.cell_alive(xi, yi + 1) {
            cnt += 1;
        }
        if self.cell_alive(xi + 1, yi - 1) {
            cnt += 1;
        }
        if self.cell_alive(xi + 1, yi) {
            cnt += 1;
        }
        if self.cell_alive(xi + 1, yi + 1) {
            cnt += 1;
        }
        Ok(cnt)
    }

    /// For each cell, row by row, whether it is `Alive`: the view of one
    /// generation that a step counts over.
    pub fn snapshot(&self) -> (life: Vec<bool>)
        requires
            self.wf(),
        ensures
            life@ == self.life(),
            life@.len() == self.dim() * self.dim(),
    {
        let mut life: Vec<bool> = Vec::new();
        let mut i: usize = 0;
        while i < self.cells.len()
            invariant
                i <= self.cells@.len(),
                life@.len() == i,
                forall|k: int| 0 <= k < i ==> life@[k] == self.cells@[k].alive.alive(),
            decreases self.cells@.len() - i,
        {
            life.push(self.cells[i].alive.is_alive());
            i += 1;
        }
        assert(life@ =~= self.life());
        life
    }
}

/// Whether `(x, y)` is a live cell of a row-major life map of side `size`;
/// the coordinates may lie outside the square.
fn probe(life: &Vec<bool>, size: usize, x: i64, y: i64) -> (r: bool)
    requires
        size * size <= usize::MAX,
        life@.len() == size * size,
    ensures
        r == life_at(life@, size as nat, x as int, y as int),
{
    proof {
        lemma_side_bound(size as int);
    }
    if x < 0 || y < 0 || x >= size as i64 || y >= size as i64 {
        return false;
    }
    proof {
        lemma_index_in_range(x as int, y as int, size as int);
    }
    life[x as usize + y as usize * size]
}

/// The number of live cells among the eight Moore neighbours of `(x, y)` in
/// a row-major life map of side `size`, with the boundary clamped.
pub fn count_alive_neighbors(life: &Vec<bool>, size: usize, x: usize, y: usize) -> (cnt: u8)
    requires
        size * size <= usize::MAX,
        life@.len() == size * size,
        x < size,
        y < size,
    ensures
        cnt == moore_count(life@, size as nat, x as int, y as int),
{
    proof {
        lemma_side_bound(size as int);
    }
    let xi: i64 = x as i64;
    let yi: i64 = y as i64;
    let mut cnt: u8 = 0;
    if probe(life, size, xi - 1, yi - 1) {
        cnt += 1;
    }
    if probe(life, size, xi - 1, yi) {
        cnt += 1;
    }
    if probe(life, size, xi - 1, yi + 1) {
        cnt += 1;
    }
    if probe(life, size, xi, yi - 1) {
        cnt += 1;
    }
    if probe(life, size, xi, yi + 1) {
        cnt += 1;
    }
    if probe(life, size, xi + 1, yi - 1) {
        cnt += 1;
    }
    if probe(life, size, xi + 1, yi) {
        cnt += 1;
    }
    if probe(life, size, xi + 1, yi + 1) {
        cnt += 1;
    }
    cnt
}

} // verus!
