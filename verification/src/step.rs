//! One generation of Conway's rule over the whole grid.

use vstd::prelude::*;
use crate::cell::{CellChange, CellState};
use crate::changes::{lemma_scan_members, row_changes, scan_changes};
use crate::grid::{count_alive_neighbors, lemma_side_bound, GridModel};
use crate::run_state::RunState;

verus! {

/// What the rule writes into a cell that holds `current` and has `neighbours`
/// live neighbours: `Alive` with exactly three; `Dead` with fewer than two or
/// more than three where the cell is alive; nothing otherwise.
pub open spec fn rule_write(current: CellState, neighbours: nat) -> Option<CellState> {
    if neighbours == 3 {
        Some(CellState::Alive)
    } else if (neighbours < 2 || neighbours > 3) && current == CellState::Alive {
        Some(CellState::Dead)
    } else {
        None
    }
}

/// The status of a cell one generation later.
pub open spec fn next_state(current: CellState, neighbours: nat) -> CellState {
    match rule_write(current, neighbours) {
        Some(state) => state,
        None => current,
    }
}

/// Whether `next` is the generation that follows `prev`: every cell follows
/// the rule, with its neighbours counted in `prev`.
pub open spec fn is_next_generation(prev: GridModel, next: GridModel) -> bool {
    &&& next.dim() == prev.dim()
    &&& forall|x: int, y: int|
        prev.in_bounds(x, y) ==> #[trigger] next.at(x, y) == next_state(
            prev.at(x, y),
            prev.alive_neighbors(x, y),
        )
}

/// What a step may leave of `prev` under `run`: the next generation while
/// the simulation runs, and `prev` itself while it is stopped.
pub open spec fn step_outcome(prev: GridModel, run: RunState, next: GridModel) -> bool {
    if run.running {
        is_next_generation(prev, next)
    } else {
        next == prev
    }
}

/// The notifications that a step from `prev` owes for each cell: one with the
/// new status where the rule writes, none where it does not.
pub open spec fn step_writes(prev: GridModel) -> spec_fn(int, int) -> Seq<CellChange> {
    |x: int, y: int|
        match rule_write(prev.at(x, y), prev.alive_neighbors(x, y)) {
            Some(state) => seq![CellChange { x: x as usize, y: y as usize, state }],
            None => Seq::empty(),
        }
}

/// What the rule writes into a cell that holds `current` and has
/// `neighbour_cnt` live neighbours, if it writes at all.
pub fn conway_rule(current: CellState, neighbour_cnt: u8) -> (write: Option<CellState>)
    ensures
        write == rule_write(current, neighbour_cnt as nat),
{
    if neighbour_cnt == 3 {
        Some(CellState::Alive)
    } else if neighbour_cnt < 2 || neighbour_cnt > 3 {
        match current {
            CellState::Alive => Some(CellState::Dead),
            CellState::Dead => None,
            CellState::Empty => None,
        }
    } else {
        None
    }
}

/// Advances the grid by one generation while the simulation runs, and does
/// nothing while it is stopped. All neighbours are counted in a snapshot of
/// the grid as it was before the step, so no cell sees a write of this step.
/// The result lists the writes in the order of the pass.
pub fn simulation_step(grid: &mut GridModel, run: &RunState) -> (changes: Vec<CellChange>)
    requires
        old(grid).wf(),
    ensures
        final(grid).wf(),
        final(grid).dim() == old(grid).dim(),
        step_outcome(*old(grid), *run, *final(grid)),
        !run.running ==> changes@.len() == 0,
        run.running ==> changes@ == scan_changes(
            step_writes(*old(grid)),
            old(grid).dim() as int,
            old(grid).dim() as int,
        ),
{
    let mut changes: Vec<CellChange> = Vec::new();
    if !run.is_running() {
        return changes;
    }
    let life = grid.snapshot();
    let size: usize = grid.size();
    let ghost prev = *grid;
    let ghost writes = step_writes(prev);
    proof {
        prev.lemma_dim_fits();
    }
    let mut y: usize = 0;
    while y < size
        invariant
            prev == *old(grid),
            writes == step_writes(prev),
            prev.wf(),
            grid.wf(),
            grid.dim() == size,
            prev.dim() == size,
            size * size <= usize::MAX,
            life@ == prev.life(),
            life@.len() == size * size,
            y <= size,
            forall|x2: int, y2: int|
                prev.in_bounds(x2, y2) ==> #[trigger] grid.at(x2, y2) == (if y2 < y {
                    next_state(prev.at(x2, y2), prev.alive_neighbors(x2, y2))
                } else {
                    prev.at(x2, y2)
                }),
            changes@ == scan_changes(writes, size as int, y as int),
        decreases size - y,
    {
        let mut x: usize = 0;
        while x < size
            invariant
                prev == *old(grid),
                writes == step_writes(prev),
                prev.wf(),
                grid.wf(),
                grid.dim() == size,
                prev.dim() == size,
                size * size <= usize::MAX,
                life@ == prev.life(),
                life@.len() == size * size,
                y < size,
                x <= size,
                forall|x2: int, y2: int|
                    prev.in_bounds(x2, y2) ==> #[trigger] grid.at(x2, y2) == (if y2 < y || (y2
                        == y && x2 < x) {
                        next_state(prev.at(x2, y2), prev.alive_neighbors(x2, y2))
                    } else {
                        prev.at(x2, y2)
                    }),
                changes@ == scan_changes(writes, size as int, y as int) + row_changes(
                    writes,
                    y as int,
                    x as int,
                ),
            decreases size - x,
        {
            let neighbour_cnt: u8 = count_alive_neighbors(&life, size, x, y);
            proof {
                prev.lemma_life_count(x as int, y as int);
            }
            let ghost before = changes@;
            if let Ok(current) = grid.get(x, y) {
                if let Some(state) = conway_rule(current, neighbour_cnt) {
                    if let Ok(change) = grid.set(x, y, state) {
                        changes.push(change);
                    }
                }
            }
            proof {
                assert(changes@ =~= before + writes(x as int, y as int));
                assert(changes@ =~= scan_changes(writes, size as int, y as int) + row_changes(
                    writes,
                    y as int,
                    x as int + 1,
                ));
            }
            x += 1;
        }
        y += 1;
        proof {
            assert(row_changes(writes, y as int, 0) =~= Seq::<CellChange>::empty());
        }
    }
    changes
}

/// A step notifies exactly the cells that the rule writes, each with the
/// status written.
pub proof fn lemma_step_notifies_writes(prev: GridModel, c: CellChange)
    requires
        prev.wf(),
    ensures
        scan_changes(step_writes(prev), prev.dim() as int, prev.dim() as int).contains(c) <==> {
            &&& prev.in_bounds(c.x as int, c.y as int)
            &&& rule_write(
                prev.at(c.x as int, c.y as int),
                prev.alive_neighbors(c.x as int, c.y as int),
            ) == Some(c.state)
        },
{
    let writes = step_writes(prev);
    let dim = prev.dim() as int;
    prev.lemma_dim_fits();
    lemma_side_bound(dim);
    assert forall|x: int, y: int, i: int|
        0 <= x < dim && 0 <= y < dim && 0 <= i < writes(x, y).len() implies (#[trigger] writes(
        x,
        y,
    )[i]).x == x && writes(x, y)[i].y == y by {}
    lemma_scan_members(writes, dim, dim, c);
    if prev.in_bounds(c.x as int, c.y as int) {
        let own = writes(c.x as int, c.y as int);
        if own.contains(c) {
            let i = choose|i: int| 0 <= i < own.len() && own[i] == c;
            assert(own[i] == c);
        }
        if rule_write(
            prev.at(c.x as int, c.y as int),
            prev.alive_neighbors(c.x as int, c.y as int),
        ) == Some(c.state) {
            assert(own[0] == c);
        }
    }
}

/// Snapshot isolation: the next generation is a function of the previous
/// one alone. Two grids that each follow `prev` hold the same in every cell,
/// in whatever order their cells were written.
pub proof fn lemma_next_generation_unique(prev: GridModel, a: GridModel, b: GridModel)
    requires
        a.wf(),
        b.wf(),
        is_next_generation(prev, a),
        is_next_generation(prev, b),
    ensures
        a.dim() == b.dim(),
        forall|x: int, y: int| prev.in_bounds(x, y) ==> a.at(x, y) == b.at(x, y),
        a@ == b@,
{
    a.lemma_same_cells(b);
}

/// Birth: a cell with exactly three live neighbours is `Alive` one generation
/// later, whatever it was.
pub proof fn lemma_birth(prev: GridModel, next: GridModel, x: int, y: int)
    requires
        is_next_generation(prev, next),
        prev.in_bounds(x, y),
        prev.alive_neighbors(x, y) == 3,
    ensures
        next.at(x, y) == CellState::Alive,
{
}

/// Death and survival: an `Alive` cell with two or three live neighbours is
/// `Alive` one generation later, and `Dead` with any other number.
pub proof fn lemma_death(prev: GridModel, next: GridModel, x: int, y: int)
    requires
        is_next_generation(prev, next),
        prev.in_bounds(x, y),
        prev.at(x, y) == CellState::Alive,
    ensures
        next.at(x, y) == (if prev.alive_neighbors(x, y) == 2 || prev.alive_neighbors(x, y) == 3 {
            CellState::Alive
        } else {
            CellState::Dead
        }),
{
}

/// Stability: a `Dead` or `Empty` cell whose number of live neighbours is
/// not three is the same one generation later.
pub proof fn lemma_stable(prev: GridModel, next: GridModel, x: int, y: int)
    requires
        is_next_generation(prev, next),
        prev.in_bounds(x, y),
        prev.at(x, y) != CellState::Alive,
        prev.alive_neighbors(x, y) != 3,
    ensures
        next.at(x, y) == prev.at(x, y),
{
}

} // verus!
