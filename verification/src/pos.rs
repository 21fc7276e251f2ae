//! Cell addresses.

use crate::text::{int_text, push_int};
use vstd::prelude::*;

verus! {

/// The address of a cell: a column `x` and a row `y`.
///
/// The grid uses the coordinates `0..=2`, but a `Pos` itself is not
/// limited to them: every pair of coordinates is the address of a
/// distinct cell.
#[derive(Debug, PartialEq, Eq, Hash, Clone, Copy, Structural)]
pub struct Pos(pub i32, pub i32);

impl Pos {
    /// The number under which the board files the cell. Distinct cells
    /// have distinct keys (`lemma_key_injective`).
    pub open spec fn spec_key(self) -> u64 {
        ((self.0 + 0x8000_0000) * 0x1_0000_0000 + (self.1 + 0x8000_0000)) as u64
    }

    /// The cell that is filed under `k`; the inverse of `spec_key`
    /// (`lemma_key_bijective`).
    pub open spec fn spec_of_key(k: u64) -> Pos {
        Pos((k / 0x1_0000_0000 - 0x8000_0000) as i32, (k % 0x1_0000_0000 - 0x8000_0000) as i32)
    }

    /// The cell at column `x` and row `y`.
    pub fn new(x: i32, y: i32) -> (p: Pos)
        ensures
            p == Pos(x, y),
    {
        Pos(x, y)
    }

    /// The cell's short name: its two coordinates in decimal, `x` first,
    /// with nothing between them.
    pub open spec fn ui_text_spec(self) -> Seq<char> {
        int_text(self.0 as int) + int_text(self.1 as int)
    }

    /// The short name of the cell, `ui_text_spec`.
    pub fn ui_text(&self) -> (text: String)
        ensures
            text@ == self.ui_text_spec(),
    {
        let mut text = String::new();
        push_int(&mut text, self.0);
        push_int(&mut text, self.1);
        assert(text@ =~= self.ui_text_spec());
        text
    }

    /// Computes `spec_key`.
    pub(crate) fn key(&self) -> (k: u64)
        ensures
            k == self.spec_key(),
    {
        let hi: u64 = (self.0 as i64 + 0x8000_0000) as u64;
        let lo: u64 = (self.1 as i64 + 0x8000_0000) as u64;
        hi * 0x1_0000_0000 + lo
    }

    /// Two cells with the same key are the same cell.
    pub proof fn lemma_key_injective(p: Pos, q: Pos)
        requires
            p.spec_key() == q.spec_key(),
        ensures
            p == q,
    {
    }

    /// Keys and cells correspond one to one.
    pub proof fn lemma_key_bijective(p: Pos, k: u64)
        ensures
            Pos::spec_of_key(p.spec_key()) == p,
            Pos::spec_of_key(k).spec_key() == k,
    {
    }
}

} // verus!
