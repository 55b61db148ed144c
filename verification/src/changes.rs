//! The notifications that a pass over the grid hands to whoever draws it:
//! one for each write, row by row and within a row by `x`.

use vstd::prelude::*;
use crate::cell::CellChange;

verus! {

/// The notifications of one row of a pass, cells `0..width` of row `y` in
/// order, where `writes(x, y)` lists those of the cell at `(x, y)`.
pub open spec fn row_changes(
    writes: spec_fn(int, int) -> Seq<CellChange>,
    y: int,
    width: int,
) -> Seq<CellChange>
    decreases width,
{
    if width <= 0 {
        Seq::empty()
    } else {
        row_changes(writes, y, width - 1) + writes(width - 1, y)
    }
}

/// The notifications of a pass over rows `0..rows` of a grid of side `dim`,
/// row by row and within a row by `x`.
pub open spec fn scan_changes(
    writes: spec_fn(int, int) -> Seq<CellChange>,
    dim: int,
    rows: int,
) -> Seq<CellChange>
    decreases rows,
{
    if rows <= 0 {
        Seq::empty()
    } else {
        scan_changes(writes, dim, rows - 1) + row_changes(writes, rows - 1, dim)
    }
}

/// Whether each notification that `writes` lists for a cell of a grid of
/// side `dim` names that cell.
pub open spec fn names_own_cell(writes: spec_fn(int, int) -> Seq<CellChange>, dim: int) -> bool {
    forall|x: int, y: int, i: int|
        0 <= x < dim && 0 <= y < dim && 0 <= i < writes(x, y).len() ==> (#[trigger] writes(
            x,
            y,
        )[i]).x == x && writes(x, y)[i].y == y
}

/// What two sequences hold together is what either of them holds.
pub proof fn lemma_concat_contains(a: Seq<CellChange>, b: Seq<CellChange>, c: CellChange)
    ensures
        (a + b).contains(c) <==> a.contains(c) || b.contains(c),
{
    if a.contains(c) {
        let i = choose|i: int| 0 <= i < a.len() && a[i] == c;
        assert((a + b)[i] == c);
    }
    if b.contains(c) {
        let i = choose|i: int| 0 <= i < b.len() && b[i] == c;
        assert((a + b)[a.len() + i] == c);
    }
    if (a + b).contains(c) {
        let i = choose|i: int| 0 <= i < (a + b).len() && (a + b)[i] == c;
        if i < a.len() {
            assert(a[i] == c);
        } else {
            assert(b[i - a.len()] == c);
        }
    }
}

/// The first `width` cells of a row notify what those cells list.
pub proof fn lemma_row_members(
    writes: spec_fn(int, int) -> Seq<CellChange>,
    dim: int,
    y: int,
    width: int,
    c: CellChange,
)
    requires
        names_own_cell(writes, dim),
        0 <= y < dim,
        0 <= width <= dim,
    ensures
        row_changes(writes, y, width).contains(c) <==> 0 <= c.x < width && c.y == y && writes(
            c.x as int,
            c.y as int,
        ).contains(c),
    decreases width,
{
    if width > 0 {
        let before = row_changes(writes, y, width - 1);
        let last = writes(width - 1, y);
        lemma_row_members(writes, dim, y, width - 1, c);
        lemma_concat_contains(before, last, c);
        if last.contains(c) {
            let i = choose|i: int| 0 <= i < last.len() && last[i] == c;
            assert(writes(width - 1, y)[i] == c);
        }
    }
}

/// The first `rows` rows of a pass notify what their cells list: a
/// notification is among them exactly if the cell that it names lies in
/// those rows and lists it.
pub proof fn lemma_scan_members(
    writes: spec_fn(int, int) -> Seq<CellChange>,
    dim: int,
    rows: int,
    c: CellChange,
)
    requires
        names_own_cell(writes, dim),
        0 <= rows <= dim,
    ensures
        scan_changes(writes, dim, rows).contains(c) <==> 0 <= c.x < dim && 0 <= c.y < rows
            && writes(c.x as int, c.y as int).contains(c),
    decreases rows,
{
    if rows > 0 {
        let before = scan_changes(writes, dim, rows - 1);
        let last = row_changes(writes, rows - 1, dim);
        lemma_scan_members(writes, dim, rows - 1, c);
        lemma_row_members(writes, dim, rows - 1, dim, c);
        lemma_concat_contains(before, last, c);
    }
}

} // verus!
