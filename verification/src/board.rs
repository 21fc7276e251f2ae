//! The board: which cells are taken, and by whom.

use crate::line::Line;
use crate::player::Player;
use crate::pos::Pos;
use std::collections::HashMap;
use vstd::prelude::*;

verus! {

broadcast use vstd::std_specs::hash::group_hash_axioms;

/// The number of cells of the grid.
pub const CELLS: usize = 9;

/// The occupant of `pos` in `cells`, if the cell is taken.
pub open spec fn occupant(cells: Map<Pos, Player>, pos: Pos) -> Option<Player> {
    if cells.contains_key(pos) {
        Some(cells[pos])
    } else {
        None
    }
}

/// Whether fewer cells are taken than the grid has.
pub open spec fn has_free_cell(cells: Map<Pos, Player>) -> bool {
    cells.dom().len() < CELLS
}

/// The occupants of the cells of `line`, in the order of `line`.
pub open spec fn line_values(cells: Map<Pos, Player>, line: Seq<Pos>) -> Seq<Option<Player>> {
    Seq::new(line.len(), |i: int| occupant(cells, line[i]))
}

/// A sparse board: it records the taken cells only.
///
/// Its view is the map from each taken cell to its occupant. The board
/// never frees a cell, and it accepts any address as a cell.
#[derive(Debug)]
pub struct Board {
    cells: HashMap<u64, Player>,
}

impl View for Board {
    type V = Map<Pos, Player>;

    closed spec fn view(&self) -> Map<Pos, Player> {
        Map::new(
            |p: Pos| self.cells@.contains_key(p.spec_key()),
            |p: Pos| self.cells@[p.spec_key()],
        )
    }
}

impl Board {
    /// A board holds finitely many cells.
    pub proof fn lemma_finite(&self)
        ensures
            self@.dom().finite(),
    {
        self.lemma_len();
    }

    proof fn lemma_len(&self)
        ensures
            self@.dom().finite(),
            self@.dom().len() == self.cells@.dom().len(),
    {
        let keys = self.cells@.dom();
        let cell = |k: u64| Pos::spec_of_key(k);
        assert(vstd::relations::injective_on(cell, keys)) by {
            assert forall|j: u64, k: u64| #[trigger] cell(j) == #[trigger] cell(k) implies j == k by {
                Pos::lemma_key_bijective(cell(j), j);
                Pos::lemma_key_bijective(cell(k), k);
            }
        }
        assert(keys.map(cell) =~= self@.dom()) by {
            assert forall|p: Pos| self@.dom().contains(p) implies keys.map(cell).contains(p) by {
                Pos::lemma_key_bijective(p, 0);
                assert(keys.contains(p.spec_key()) && cell(p.spec_key()) == p);
            }
            assert forall|p: Pos| keys.map(cell).contains(p) implies self@.dom().contains(p) by {
                let k = choose|k: u64| keys.contains(k) && p == cell(k);
                Pos::lemma_key_bijective(p, k);
            }
        }
        vstd::set_lib::lemma_map_size(keys, self@.dom(), cell);
    }

    /// The empty board.
    pub fn new() -> (board: Board)
        ensures
            board@ == Map::<Pos, Player>::empty(),
    {
        let board = Board { cells: HashMap::new() };
        assert(board@ =~= Map::<Pos, Player>::empty());
        board
    }

    /// Whether a cell of the grid is still free: fewer than nine cells
    /// are taken.
    pub fn any_more_moves(&self) -> (free: bool)
        ensures
            free == has_free_cell(self@),
    {
        proof {
            self.lemma_len();
        }
        self.cells.len() < CELLS
    }

    /// Gives the cell `pos` to `player`, whoever held it before.
    pub fn set(&mut self, pos: Pos, player: Player)
        ensures
            final(self)@ == old(self)@.insert(pos, player),
    {
        self.cells.insert(pos.key(), player);
        assert(self@ =~= old(self)@.insert(pos, player)) by {
            assert forall|p: Pos| p != pos implies p.spec_key() != pos.spec_key() by {
                if p.spec_key() == pos.spec_key() {
                    Pos::lemma_key_injective(p, pos);
                }
            }
        }
    }

    /// Reads the three cells of `line` off the board, in the order of
    /// `line`; a free cell reads as `None`.
    pub fn get_line(&self, line: &[Pos; 3]) -> (values: Line)
        ensures
            values@ == line_values(self@, line@),
    {
        let mut cells: Vec<Option<Player>> = Vec::new();
        let mut i: usize = 0;
        while i < 3
            invariant
                i <= 3,
                cells@.len() == i,
                forall|j: int| 0 <= j < i ==> cells@[j] == occupant(self@, line@[j]),
            decreases 3 - i,
        {
            let cell = match self.get(&line[i]) {
                Some(player) => Some(*player),
                None => None,
            };
            cells.push(cell);
            i += 1;
        }
        assert(cells@ =~= line_values(self@, line@));
        Line(cells)
    }

    /// The occupant of the cell `pos`, if it is taken.
    pub fn get(&self, pos: &Pos) -> (cell: Option<&Player>)
        ensures
            cell == match occupant(self@, *pos) {
                Some(p) => Some(&p),
                None => None,
            },
    {
        let k = pos.key();
        self.cells.get(&k)
    }
}

} // verus!
