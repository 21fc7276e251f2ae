//! The bindings of the whole display, cell by cell.

use crate::binding::{msg, one_way, ViewBinding};
use crate::grid::{grid_cells, grid_positions};
use crate::model::{Model, Msg};
use vstd::prelude::*;

verus! {

/// The bindings that `view` declares: three for each cell of the grid,
/// one for the status line and one for the restart.
pub open spec fn view_bindings() -> Seq<ViewBinding> {
    Seq::new(3 * grid_cells().len() + 2, |i: int| ViewBinding)
}

/// Declares the display: for each cell of the grid the move into it,
/// whether that move is legal and the image of its occupant; then the
/// status line and the restart.
pub fn view() -> (bindings: Vec<ViewBinding>)
    ensures
        bindings@ == view_bindings(),
{
    let positions = grid_positions();
    let mut bindings: Vec<ViewBinding> = Vec::new();
    for i in 0..positions.len()
        invariant
            positions@ == grid_cells(),
            bindings@.len() == 3 * i,
    {
        let p = positions[i];
        bindings.push(msg("Play", Msg::Play(p)));
        bindings.push(one_way("CanPlay", |m: Model| -> bool { m.can_play(m.board().get(&p)) }));
        bindings.push(
            one_way(
                "Image",
                |m: Model| -> String {
                    match m.board().get(&p) {
                        Some(player) => player.image(),
                        None => "".to_string(),
                    }
                },
            ),
        );
    }
    bindings.push(one_way("TurnMessage", |m: Model| -> String { m.get_message() }));
    bindings.push(msg("Restart", Msg::Restart));
    assert(bindings@ =~= view_bindings());
    bindings
}

} // verus!
