//! The two participants of a game.

use vstd::prelude::*;

verus! {

/// One of the two players. `X` moves first.
#[derive(Clone, Copy, Debug, PartialEq, Eq, Structural)]
pub enum Player {
    X,
    O,
}

impl Player {
    /// The opponent of `self`.
    pub open spec fn other(self) -> Player {
        match self {
            Player::X => Player::O,
            Player::O => Player::X,
        }
    }

    /// The text by which status messages refer to the player.
    pub open spec fn name_text(self) -> Seq<char> {
        match self {
            Player::X => "X"@,
            Player::O => "O"@,
        }
    }

    /// The text shown in a cell that the player occupies.
    pub open spec fn image_text(self) -> Seq<char> {
        match self {
            Player::X => "Cross"@,
            Player::O => "Nought"@,
        }
    }

    /// Passes the turn: replaces the player by the opponent.
    pub fn swap(&mut self)
        ensures
            *final(self) == old(self).other(),
    {
        match self {
            Player::X => *self = Player::O,
            Player::O => *self = Player::X,
        }
    }

    /// The player's name as it appears in status messages.
    pub fn name(&self) -> (s: &'static str)
        ensures
            s@ == self.name_text(),
    {
        match self {
            Player::X => "X",
            Player::O => "O",
        }
    }

    /// The label displayed for a cell held by the player.
    pub fn image(&self) -> (s: String)
        ensures
            s@ == self.image_text(),
    {
        match self {
            Player::X => "Cross".to_string(),
            Player::O => "Nought".to_string(),
        }
    }
}

} // verus!
