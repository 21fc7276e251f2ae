//! Lines of three cells, and who has won one.

use crate::player::Player;
use vstd::prelude::*;

verus! {

/// The player who holds a line with the occupants `cells`: the line has
/// three cells, all of them are taken, and by the same player.
pub open spec fn winner_of(cells: Seq<Option<Player>>) -> Option<Player> {
    if cells.len() == 3 && cells[0] is Some && cells[0] == cells[1] && cells[1] == cells[2] {
        cells[0]
    } else {
        None
    }
}

/// The occupants of the cells of one line, read off a board.
pub struct Line(pub Vec<Option<Player>>);

impl View for Line {
    type V = Seq<Option<Player>>;

    open spec fn view(&self) -> Seq<Option<Player>> {
        self.0@
    }
}

impl Line {
    /// The player who holds the whole line, if one does.
    pub fn get_winner(&self) -> (winner: Option<Player>)
        ensures
            winner == winner_of(self@),
    {
        if self.0.len() != 3 {
            return None;
        }
        match (self.0[0], self.0[1], self.0[2]) {
            (Some(Player::X), Some(Player::X), Some(Player::X)) => Some(Player::X),
            (Some(Player::O), Some(Player::O), Some(Player::O)) => Some(Player::O),
            _ => None,
        }
    }
}

} // verus!
