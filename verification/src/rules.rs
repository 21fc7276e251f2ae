//! The rules: the eight winning lines and the state of a game.

use crate::board::{has_free_cell, line_values};
use crate::line::winner_of;
use crate::player::Player;
use crate::pos::Pos;
use vstd::prelude::*;

verus! {

/// The state of a game, as its board shows it.
#[derive(Clone, Copy, Debug, PartialEq, Eq, Structural)]
pub enum GameResult {
    /// Nobody has won and a cell is free.
    StillPlaying,
    /// The player holds a winning line.
    Win(Player),
    /// Nobody has won and no cell is free.
    Draw,
}

/// The eight winning lines in their fixed order: the columns `x = 0, 1,
/// 2`, the rows `y = 0, 1, 2`, and the two diagonals.
pub open spec fn winning_lines() -> Seq<Seq<Pos>> {
    seq![
        seq![Pos(0, 0), Pos(0, 1), Pos(0, 2)],
        seq![Pos(1, 0), Pos(1, 1), Pos(1, 2)],
        seq![Pos(2, 0), Pos(2, 1), Pos(2, 2)],
        seq![Pos(0, 0), Pos(1, 0), Pos(2, 0)],
        seq![Pos(0, 1), Pos(1, 1), Pos(2, 1)],
        seq![Pos(0, 2), Pos(1, 2), Pos(2, 2)],
        seq![Pos(0, 0), Pos(1, 1), Pos(2, 2)],
        seq![Pos(0, 2), Pos(1, 1), Pos(2, 0)],
    ]
}

/// The player who holds `line` on the board `cells`, if one does.
pub open spec fn line_winner(cells: Map<Pos, Player>, line: Seq<Pos>) -> Option<Player> {
    winner_of(line_values(cells, line))
}

/// The holder of the first line that anybody holds, among the winning
/// lines from number `from` on.
pub open spec fn first_winner(cells: Map<Pos, Player>, from: int) -> Option<Player>
    decreases winning_lines().len() - from,
{
    if from < 0 || from >= winning_lines().len() {
        None
    } else if line_winner(cells, winning_lines()[from]) is Some {
        line_winner(cells, winning_lines()[from])
    } else {
        first_winner(cells, from + 1)
    }
}

/// The state of the game on the board `cells`.
///
/// A held line decides the game. Should several lines be held, the
/// first of them in the order of `winning_lines` names the winner.
pub open spec fn game_result(cells: Map<Pos, Player>) -> GameResult {
    match first_winner(cells, 0) {
        Some(player) => GameResult::Win(player),
        None => if has_free_cell(cells) {
            GameResult::StillPlaying
        } else {
            GameResult::Draw
        },
    }
}

/// The winning lines as a table, for executable code.
pub(crate) fn winning_lines_table() -> (table: [[Pos; 3]; 8])
    ensures
        table@.len() == winning_lines().len(),
        forall|i: int| 0 <= i < 8 ==> (#[trigger] table@[i])@ == winning_lines()[i],
{
    let table = [
        [Pos(0, 0), Pos(0, 1), Pos(0, 2)],
        [Pos(1, 0), Pos(1, 1), Pos(1, 2)],
        [Pos(2, 0), Pos(2, 1), Pos(2, 2)],
        [Pos(0, 0), Pos(1, 0), Pos(2, 0)],
        [Pos(0, 1), Pos(1, 1), Pos(2, 1)],
        [Pos(0, 2), Pos(1, 2), Pos(2, 2)],
        [Pos(0, 0), Pos(1, 1), Pos(2, 2)],
        [Pos(0, 2), Pos(1, 1), Pos(2, 0)],
    ];
    assert forall|i: int| 0 <= i < 8 implies (#[trigger] table@[i])@ == winning_lines()[i] by {
        assert(table@[i]@ =~= winning_lines()[i]);
    }
    table
}

} // verus!
