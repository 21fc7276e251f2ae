//! What holds of every game: theorems about the rules, proved once and
//! for all.

use crate::board::{has_free_cell, CELLS};
use crate::grid::{grid_cells, lemma_grid_cells, on_grid};
use crate::model::{ModelView, Msg};
use crate::player::Player;
use crate::pos::Pos;
use crate::rules::{first_winner, game_result, line_winner, winning_lines, GameResult};
use vstd::prelude::*;

verus! {

/// The messages that play the cells of `cells`, one after the other.
pub open spec fn plays(cells: Seq<Pos>) -> Seq<Msg> {
    Seq::new(cells.len(), |i: int| Msg::Play(cells[i]))
}

/// The player who makes move number `i` (from 0) when `first` opens.
pub open spec fn mover(first: Player, i: int) -> Player {
    if i % 2 == 0 {
        first
    } else {
        first.other()
    }
}

/// A cell once taken stays taken. Whatever cells are played, and in
/// whatever state of the game, the taken cells are those that were
/// taken before and those that were played, and the turn has passed
/// once for each move.
pub proof fn lemma_plays_keep_cells(start: ModelView, cells: Seq<Pos>)
    ensures
        start.run(plays(cells)).board.dom() == start.board.dom().union(cells.to_set()),
        start.run(plays(cells)).next_up == mover(start.next_up, cells.len() as int),
        forall|p: Pos|
            start.board.contains_key(p) && !cells.contains(p) ==> #[trigger] start.run(
                plays(cells),
            ).board[p] == start.board[p],
    decreases cells.len(),
{
    let end = start.run(plays(cells));
    if cells.len() == 0 {
        assert(end.board.dom() =~= start.board.dom().union(cells.to_set()));
    } else {
        let head = cells.drop_last();
        let last = cells.last();
        assert(plays(cells).drop_last() =~= plays(head));
        assert(plays(cells).last() == Msg::Play(last));
        lemma_plays_keep_cells(start, head);
        let before = start.run(plays(head));
        assert(end == before.play(last));
        assert forall|p: Pos| cells.to_set().contains(p) <==> (head.to_set().contains(p) || p
            == last) by {
            if cells.to_set().contains(p) {
                let j = choose|j: int| 0 <= j < cells.len() && cells[j] == p;
                if j < head.len() {
                    assert(head[j] == p);
                }
            }
            if head.to_set().contains(p) {
                let j = choose|j: int| 0 <= j < head.len() && head[j] == p;
                assert(cells[j] == p);
            }
            if p == last {
                assert(cells[cells.len() - 1] == p);
            }
        }
        assert(end.board.dom() =~= start.board.dom().union(cells.to_set()));
        assert forall|p: Pos| start.board.contains_key(p) && !cells.contains(p) implies #[trigger]
            end.board[p] == start.board[p] by {
            assert(cells[cells.len() - 1] != p);
            if head.contains(p) {
                let j = choose|j: int| 0 <= j < head.len() && head[j] == p;
                assert(cells[j] == p);
            }
        }
    }
}

/// Moves into free cells fill the board one by one and alternate.
///
/// When the cells of `cells` differ from each other and are free in
/// `start`, then playing them in turn adds one taken cell with each
/// move, and gives the cells alternately to the player to move and to
/// the opponent.
pub proof fn lemma_plays_into_free_cells(start: ModelView, cells: Seq<Pos>)
    requires
        start.board.dom().finite(),
        cells.no_duplicates(),
        forall|i: int| 0 <= i < cells.len() ==> !start.board.contains_key(cells[i]),
    ensures
        start.run(plays(cells)).board.dom().finite(),
        start.run(plays(cells)).board.dom().len() == start.board.dom().len() + cells.len(),
        forall|i: int|
            0 <= i < cells.len() ==> #[trigger] start.run(plays(cells)).board[cells[i]] == mover(
                start.next_up,
                i,
            ),
    decreases cells.len(),
{
    let end = start.run(plays(cells));
    lemma_plays_keep_cells(start, cells);
    if cells.len() == 0 {
        assert(end.board.dom() =~= start.board.dom());
    } else {
        let head = cells.drop_last();
        let last = cells.last();
        assert(plays(cells).drop_last() =~= plays(head));
        assert(plays(cells).last() == Msg::Play(last));
        lemma_plays_into_free_cells(start, head);
        lemma_plays_keep_cells(start, head);
        let before = start.run(plays(head));
        assert(end == before.play(last));
        assert(!before.board.dom().contains(last)) by {
            if head.to_set().contains(last) {
                let j = choose|j: int| 0 <= j < head.len() && head[j] == last;
                assert(cells[j] == cells[cells.len() - 1]);
            }
        }
        assert forall|i: int| 0 <= i < cells.len() implies #[trigger] end.board[cells[i]] == mover(
            start.next_up,
            i,
        ) by {
            if i < head.len() {
                assert(head[i] == cells[i]);
                assert(before.board[head[i]] == mover(start.next_up, i));
            }
        }
    }
}

/// From the start of a game, `n` moves into distinct cells leave exactly
/// `n` cells taken, and the turn alternates from `X`: it is with `X`
/// after an even number of moves and with `O` after an odd one.
pub proof fn lemma_plays_on_distinct_cells(cells: Seq<Pos>)
    requires
        cells.no_duplicates(),
    ensures
        ModelView::initial().run(plays(cells)).board.dom().finite(),
        ModelView::initial().run(plays(cells)).board.dom().len() == cells.len(),
        ModelView::initial().run(plays(cells)).board.dom() == cells.to_set(),
        ModelView::initial().run(plays(cells)).next_up == mover(Player::X, cells.len() as int),
        forall|i: int|
            0 <= i < cells.len() ==> #[trigger] ModelView::initial().run(plays(cells)).board[cells[i]]
                == mover(Player::X, i),
{
    let start = ModelView::initial();
    lemma_plays_into_free_cells(start, cells);
    lemma_plays_keep_cells(start, cells);
    assert(start.board.dom().union(cells.to_set()) =~= cells.to_set());
}

/// A game that is played on the grid stays on the grid: from the start
/// of a game, moves into cells of the grid, free or taken, take cells
/// of the grid only, and so at most nine.
pub proof fn lemma_plays_on_the_grid(cells: Seq<Pos>)
    requires
        forall|i: int| 0 <= i < cells.len() ==> on_grid(cells[i]),
    ensures
        ModelView::initial().run(plays(cells)).board.dom().subset_of(grid_cells().to_set()),
        ModelView::initial().run(plays(cells)).board.dom().finite(),
        ModelView::initial().run(plays(cells)).board.dom().len() <= CELLS,
{
    let start = ModelView::initial();
    let taken = start.run(plays(cells)).board.dom();
    lemma_plays_keep_cells(start, cells);
    lemma_grid_cells();
    assert forall|p: Pos| taken.contains(p) implies grid_cells().to_set().contains(p) by {
        let i = choose|i: int| 0 <= i < cells.len() && cells[i] == p;
        assert(on_grid(cells[i]));
    }
    vstd::set_lib::lemma_len_subset(taken, grid_cells().to_set());
}

/// A restart wipes the past: whatever the game was and whatever was
/// sent to it, after `Restart` it is the game that `Model::new` makes,
/// with an empty board, `X` to move and nothing decided.
pub proof fn lemma_restart_resets(start: ModelView, msgs: Seq<Msg>)
    ensures
        start.run(msgs.push(Msg::Restart)) == ModelView::initial(),
        ModelView::initial().board == Map::<Pos, Player>::empty(),
        ModelView::initial().next_up == Player::X,
        ModelView::initial().result() == GameResult::StillPlaying,
{
    let all = msgs.push(Msg::Restart);
    assert(all.last() == Msg::Restart);
    lemma_nobody_wins_on_empty_board();
}

/// On the empty board no line is held and the game goes on.
pub proof fn lemma_nobody_wins_on_empty_board()
    ensures
        game_result(Map::<Pos, Player>::empty()) == GameResult::StillPlaying,
{
    reveal_with_fuel(first_winner, 9);
    assert(Map::<Pos, Player>::empty().dom().len() == 0);
}

/// The winner is the holder of the first held line.
///
/// `first_winner(cells, from)` names a player exactly when one of the
/// winning lines from number `from` on is held, and then it names the
/// holder of the first of them.
pub proof fn lemma_first_winner(cells: Map<Pos, Player>, from: int)
    requires
        0 <= from <= winning_lines().len(),
    ensures
        first_winner(cells, from) is None <==> forall|i: int|
            from <= i < winning_lines().len() ==> line_winner(cells, #[trigger] winning_lines()[i])
                is None,
        first_winner(cells, from) is Some ==> exists|i: int|
            {
                &&& from <= i < winning_lines().len()
                &&& line_winner(cells, #[trigger] winning_lines()[i]) == first_winner(cells, from)
                &&& forall|j: int|
                    from <= j < i ==> line_winner(cells, #[trigger] winning_lines()[j]) is None
            },
    decreases winning_lines().len() - from,
{
    if from < winning_lines().len() {
        if line_winner(cells, winning_lines()[from]) is Some {
        } else {
            lemma_first_winner(cells, from + 1);
            if first_winner(cells, from) is Some {
                let i = choose|i: int|
                    {
                        &&& from + 1 <= i < winning_lines().len()
                        &&& line_winner(cells, #[trigger] winning_lines()[i]) == first_winner(
                            cells,
                            from + 1,
                        )
                        &&& forall|j: int|
                            from + 1 <= j < i ==> line_winner(cells, #[trigger] winning_lines()[j])
                                is None
                    };
                assert(forall|j: int|
                    from <= j < i ==> line_winner(cells, #[trigger] winning_lines()[j]) is None);
            }
        }
    }
}

/// The three states of a game, by the lines that are held: a game is
/// won exactly when a winning line is held; otherwise it goes on while
/// fewer than nine cells are taken, and is a draw from then on.
pub proof fn lemma_game_result(cells: Map<Pos, Player>)
    ensures
        game_result(cells) is Win <==> exists|i: int|
            0 <= i < winning_lines().len() && line_winner(cells, #[trigger] winning_lines()[i])
                is Some,
        game_result(cells) == GameResult::StillPlaying <==> first_winner(cells, 0) is None
            && has_free_cell(cells),
        game_result(cells) == GameResult::Draw <==> first_winner(cells, 0) is None
            && !has_free_cell(cells),
{
    lemma_first_winner(cells, 0);
}

} // verus!
