//! The three-by-three grid.

use crate::pos::Pos;
use vstd::prelude::*;

verus! {

/// Whether `p` is a cell of the grid: both coordinates are 0, 1 or 2.
pub open spec fn on_grid(p: Pos) -> bool {
    0 <= p.0 <= 2 && 0 <= p.1 <= 2
}

/// The nine cells of the grid, row by row: `y` counts the rows, and
/// within a row `x` runs from 0 to 2.
pub open spec fn grid_cells() -> Seq<Pos> {
    Seq::new(9, |i: int| Pos((i % 3) as i32, (i / 3) as i32))
}

/// `grid_cells` lists each cell of the grid once, and nothing else.
pub proof fn lemma_grid_cells()
    ensures
        grid_cells().no_duplicates(),
        forall|p: Pos| on_grid(p) <==> grid_cells().contains(p),
        grid_cells().to_set().finite(),
        grid_cells().to_set().len() == 9,
{
    assert forall|p: Pos| on_grid(p) implies grid_cells().contains(p) by {
        assert(grid_cells()[p.1 * 3 + p.0] == p);
    }
    grid_cells().unique_seq_to_set();
    vstd::seq_lib::seq_to_set_is_finite(grid_cells());
}

/// The cells of the grid in the order of `grid_cells`.
pub fn grid_positions() -> (cells: Vec<Pos>)
    ensures
        cells@ == grid_cells(),
{
    let mut cells: Vec<Pos> = Vec::new();
    for y in 0..3i32
        invariant
            cells@.len() == 3 * y,
            forall|i: int| 0 <= i < cells@.len() ==> cells@[i] == grid_cells()[i],
    {
        for x in 0..3i32
            invariant
                0 <= y < 3,
                cells@.len() == 3 * y + x,
                forall|i: int| 0 <= i < cells@.len() ==> cells@[i] == grid_cells()[i],
        {
            cells.push(Pos(x, y));
        }
    }
    assert(cells@ =~= grid_cells());
    cells
}

} // verus!
