//! Drawing and erasing cells with the pointer while the simulation is
//! stopped. Positions are in whole world units: a pointer between two units
//! counts as the unit below it, which lies in the same cell.

use vstd::prelude::*;
use crate::cell::{CellChange, CellState};
use crate::grid::{lemma_side_bound, GridModel};
use crate::run_state::RunState;
use crate::step::step_outcome;
use crate::changes::{lemma_scan_members, row_changes, scan_changes};

verus! {

/// The distance between the centres of two neighbouring cells.
pub const CELL_SIZE: i64 = 32;

/// How far a cell reaches from its centre along each axis.
pub const CELL_HALF_EXTENT: i64 = 16;

/// The positions at which the pointer asked to draw and to erase since they
/// were last taken; at most one of each.
#[derive(Clone, Copy, Debug, PartialEq, Eq)]
pub struct PendingInteraction {
    pub draw_at: Option<(i64, i64)>,
    pub erase_at: Option<(i64, i64)>,
}

impl PendingInteraction {
    /// Nothing pending.
    pub fn new() -> (p: PendingInteraction)
        ensures
            p.draw_at.is_none(),
            p.erase_at.is_none(),
    {
        PendingInteraction { draw_at: None, erase_at: None }
    }
}

/// Whether `xy` lies in the box round `center` that reaches `dims` to each
/// side. The lower bounds belong to the box, the upper ones do not, so a
/// point between two adjoining boxes lies in one of them only.
pub open spec fn in_cell_bounds(xy: (int, int), center: (int, int), dims: (int, int)) -> bool {
    &&& center.0 - dims.0 <= xy.0 < center.0 + dims.0
    &&& center.1 - dims.1 <= xy.1 < center.1 + dims.1
}

/// Whether the point `(px, py)` lies in the cell at `(x, y)`, whose centre is
/// `(x * 32, y * 32)` and which reaches 16 units to each side.
pub open spec fn point_in_cell(px: int, py: int, x: int, y: int) -> bool {
    in_cell_bounds(
        (px, py),
        (x * CELL_SIZE, y * CELL_SIZE),
        (CELL_HALF_EXTENT as int, CELL_HALF_EXTENT as int),
    )
}

/// Whether there is a pending point and it lies in the cell at `(x, y)`.
pub open spec fn hits(point: Option<(i64, i64)>, x: int, y: int) -> bool {
    point matches Some(p) && point_in_cell(p.0 as int, p.1 as int, x, y)
}

/// What a cell holds after an interaction pass: `Empty` where the erase point
/// hit it, else `Alive` where the draw point did, else what it held.
pub open spec fn touched_state(current: CellState, drawn: bool, erased: bool) -> CellState {
    if erased {
        CellState::Empty
    } else if drawn {
        CellState::Alive
    } else {
        current
    }
}

/// What an interaction pass may leave of `prev` under `run`: while the
/// simulation is stopped each cell as the pending points touched it, and
/// `prev` itself while it runs.
pub open spec fn interaction_outcome(
    prev: GridModel,
    pending: PendingInteraction,
    run: RunState,
    next: GridModel,
) -> bool {
    if run.running {
        next == prev
    } else {
        &&& next.dim() == prev.dim()
        &&& forall|x: int, y: int|
            prev.in_bounds(x, y) ==> #[trigger] next.at(x, y) == touched_state(
                prev.at(x, y),
                hits(pending.draw_at, x, y),
                hits(pending.erase_at, x, y),
            )
    }
}

/// The notifications that an interaction pass owes for each cell: `Alive`
/// where the draw point hit it, then `Empty` where the erase point did.
pub open spec fn interaction_writes(pending: PendingInteraction) -> spec_fn(int, int) -> Seq<
    CellChange,
> {
    |x: int, y: int|
        (if hits(pending.draw_at, x, y) {
            seq![CellChange { x: x as usize, y: y as usize, state: CellState::Alive }]
        } else {
            Seq::empty()
        }) + (if hits(pending.erase_at, x, y) {
            seq![CellChange { x: x as usize, y: y as usize, state: CellState::Empty }]
        } else {
            Seq::empty()
        })
}

/// Whether `xy` lies in the box round `center` that reaches `dims` to each
/// side, lower bounds included and upper bounds excluded.
pub fn is_in_cell_bounds(xy: (i64, i64), center: (i64, i64), dims: (i64, i64)) -> (r: bool)
    ensures
        r == in_cell_bounds(
            (xy.0 as int, xy.1 as int),
            (center.0 as int, center.1 as int),
            (dims.0 as int, dims.1 as int),
        ),
{
    let px: i128 = xy.0 as i128;
    let py: i128 = xy.1 as i128;
    let cx: i128 = center.0 as i128;
    let cy: i128 = center.1 as i128;
    let dx: i128 = dims.0 as i128;
    let dy: i128 = dims.1 as i128;
    px >= cx - dx && px < cx + dx && py >= cy - dy && py < cy + dy
}

/// Records where the pointer asks to draw (left button) and to erase (right
/// button). Nothing is recorded while the simulation runs or while the
/// pointer is outside the window.
pub fn set_cursor_world_position(
    cursor: Option<(i64, i64)>,
    left_pressed: bool,
    right_pressed: bool,
    pending: &mut PendingInteraction,
    run: &RunState,
)
    ensures
        final(pending).draw_at == (if !run.running && cursor.is_some() && left_pressed {
            cursor
        } else {
            old(pending).draw_at
        }),
        final(pending).erase_at == (if !run.running && cursor.is_some() && right_pressed {
            cursor
        } else {
            old(pending).erase_at
        }),
{
    if !run.is_running() {
        if let Some(pos) = cursor {
            if left_pressed {
                pending.draw_at = Some(pos);
            }
            if right_pressed {
                pending.erase_at = Some(pos);
            }
        }
    }
}

/// Takes the pending points, which leaves none pending, and while the
/// simulation is stopped applies them: each cell that holds the draw point
/// becomes `Alive`, then each cell that holds the erase point becomes
/// `Empty`. While the simulation runs the grid is not touched. The result
/// lists the writes in the order of the pass.
pub fn cell_interaction(
    grid: &mut GridModel,
    pending: &mut PendingInteraction,
    run: &RunState,
) -> (changes: Vec<CellChange>)
    requires
        old(grid).wf(),
    ensures
        final(grid).wf(),
        final(grid).dim() == old(grid).dim(),
        final(pending).draw_at.is_none(),
        final(pending).erase_at.is_none(),
        interaction_outcome(*old(grid), *old(pending), *run, *final(grid)),
        run.running ==> changes@.len() == 0,
        !run.running ==> changes@ == scan_changes(
            interaction_writes(*old(pending)),
            old(grid).dim() as int,
            old(grid).dim() as int,
        ),
{
    let mouse_draw = pending.draw_at;
    let mouse_erase = pending.erase_at;
    pending.draw_at = None;
    pending.erase_at = None;
    let mut changes: Vec<CellChange> = Vec::new();
    if run.is_running() {
        return changes;
    }
    let size: usize = grid.size();
    let ghost prev = *grid;
    let ghost writes = interaction_writes(*old(pending));
    proof {
        prev.lemma_dim_fits();
        lemma_side_bound(size as int);
    }
    let mut y: usize = 0;
    while y < size
        invariant
            prev == *old(grid),
            writes == interaction_writes(*old(pending)),
            mouse_draw == old(pending).draw_at,
            mouse_erase == old(pending).erase_at,
            grid.wf(),
            grid.dim() == size,
            prev.dim() == size,
            size <= 0xFFFF_FFFF,
            y <= size,
            forall|x2: int, y2: int|
                prev.in_bounds(x2, y2) ==> #[trigger] grid.at(x2, y2) == (if y2 < y {
                    touched_state(
                        prev.at(x2, y2),
                        hits(mouse_draw, x2, y2),
                        hits(mouse_erase, x2, y2),
                    )
                } else {
                    prev.at(x2, y2)
                }),
            changes@ == scan_changes(writes, size as int, y as int),
        decreases size - y,
    {
        let mut x: usize = 0;
        while x < size
            invariant
                prev == *old(grid),
                writes == interaction_writes(*old(pending)),
                mouse_draw == old(pending).draw_at,
                mouse_erase == old(pending).erase_at,
                grid.wf(),
                grid.dim() == size,
                prev.dim() == size,
                size <= 0xFFFF_FFFF,
                y < size,
                x <= size,
                forall|x2: int, y2: int|
                    prev.in_bounds(x2, y2) ==> #[trigger] grid.at(x2, y2) == (if y2 < y || (y2
                        == y && x2 < x) {
                        touched_state(
                            prev.at(x2, y2),
                            hits(mouse_draw, x2, y2),
                            hits(mouse_erase, x2, y2),
                        )
                    } else {
                        prev.at(x2, y2)
                    }),
                changes@ == scan_changes(writes, size as int, y as int) + row_changes(
                    writes,
                    y as int,
                    x as int,
                ),
            decreases size - x,
        {
            let center: (i64, i64) = (x as i64 * CELL_SIZE, y as i64 * CELL_SIZE);
            let dims: (i64, i64) = (CELL_HALF_EXTENT, CELL_HALF_EXTENT);
            let ghost before = changes@;
            if let Some(mouse_world_pos) = mouse_draw {
                if is_in_cell_bounds(mouse_world_pos, center, dims) {
                    if let Ok(change) = grid.set(x, y, CellState::Alive) {
                        changes.push(change);
                    }
                }
            }
            if let Some(mouse_world_pos) = mouse_erase {
                if is_in_cell_bounds(mouse_world_pos, center, dims) {
                    if let Ok(change) = grid.set(x, y, CellState::Empty) {
                        changes.push(change);
                    }
                }
            }
            proof {
                assert(changes@ =~= before + writes(x as int, y as int));
                assert(changes@ =~= scan_changes(writes, size as int, y as int) + row_changes(
                    writes,
                    y as int,
                    x as int + 1,
                ));
            }
            x += 1;
        }
        y += 1;
        proof {
            assert(row_changes(writes, y as int, 0) =~= Seq::<CellChange>::empty());
        }
    }
    changes
}

/// An interaction pass notifies exactly the cells that a pending point hit:
/// with `Alive` for the draw point, with `Empty` for the erase point.
pub proof fn lemma_interaction_notifies_writes(
    grid: GridModel,
    pending: PendingInteraction,
    c: CellChange,
)
    requires
        grid.wf(),
    ensures
        scan_changes(interaction_writes(pending), grid.dim() as int, grid.dim() as int).contains(c)
            <==> {
            &&& grid.in_bounds(c.x as int, c.y as int)
            &&& {
                ||| hits(pending.draw_at, c.x as int, c.y as int) && c.state == CellState::Alive
                ||| hits(pending.erase_at, c.x as int, c.y as int) && c.state == CellState::Empty
            }
        },
{
    let writes = interaction_writes(pending);
    let dim = grid.dim() as int;
    grid.lemma_dim_fits();
    lemma_side_bound(dim);
    assert forall|x: int, y: int, i: int|
        0 <= x < dim && 0 <= y < dim && 0 <= i < writes(x, y).len() implies (#[trigger] writes(
        x,
        y,
    )[i]).x == x && writes(x, y)[i].y == y by {}
    lemma_scan_members(writes, dim, dim, c);
    if grid.in_bounds(c.x as int, c.y as int) {
        let own = writes(c.x as int, c.y as int);
        let drawn = hits(pending.draw_at, c.x as int, c.y as int);
        let erased = hits(pending.erase_at, c.x as int, c.y as int);
        if own.contains(c) {
            let i = choose|i: int| 0 <= i < own.len() && own[i] == c;
            assert(own[i] == c);
        }
        if drawn && c.state == CellState::Alive {
            assert(own[0] == c);
        }
        if erased && c.state == CellState::Empty {
            assert(own[own.len() - 1] == c);
        }
    }
}

/// The run state lets at most one of the two passes write: under any one
/// state, whatever is pending, the interaction pass or the step leaves the
/// grid as it was.
pub proof fn lemma_single_writer(
    prev: GridModel,
    pending: PendingInteraction,
    run: RunState,
    drawn: GridModel,
    stepped: GridModel,
)
    requires
        interaction_outcome(prev, pending, run, drawn),
        step_outcome(prev, run, stepped),
    ensures
        drawn == prev || stepped == prev,
        run.running ==> drawn == prev,
        !run.running ==> stepped == prev,
{
}

/// A point lies in at most one cell.
pub proof fn lemma_capture_unique(px: int, py: int, x1: int, y1: int, x2: int, y2: int)
    requires
        point_in_cell(px, py, x1, y1),
        point_in_cell(px, py, x2, y2),
    ensures
        x1 == x2,
        y1 == y2,
{
}

/// The centre of a cell lies in that cell.
pub proof fn lemma_center_captured(x: int, y: int)
    ensures
        point_in_cell(x * CELL_SIZE, y * CELL_SIZE, x, y),
{
}

/// The lower boundary of a cell, 16 units below its centre on either axis,
/// belongs to the cell.
pub proof fn lemma_lower_boundary_captured(x: int, y: int)
    ensures
        point_in_cell(x * CELL_SIZE - CELL_HALF_EXTENT, y * CELL_SIZE, x, y),
        point_in_cell(x * CELL_SIZE, y * CELL_SIZE - CELL_HALF_EXTENT, x, y),
{
}

/// The upper boundary of a cell, 16 units above its centre on either axis,
/// belongs to the next cell along that axis and not to the cell itself.
pub proof fn lemma_upper_boundary_next(x: int, y: int)
    ensures
        !point_in_cell(x * CELL_SIZE + CELL_HALF_EXTENT, y * CELL_SIZE, x, y),
        point_in_cell(x * CELL_SIZE + CELL_HALF_EXTENT, y * CELL_SIZE, x + 1, y),
        !point_in_cell(x * CELL_SIZE, y * CELL_SIZE + CELL_HALF_EXTENT, x, y),
        point_in_cell(x * CELL_SIZE, y * CELL_SIZE + CELL_HALF_EXTENT, x, y + 1),
{
}

} // verus!
