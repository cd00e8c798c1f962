//! Questions about the whole board, and the two updates that touch every
//! square.

use vstd::prelude::*;
use crate::minesweeper::{GameBoard, Square};
use crate::tally::count_where;

verus! {

/// Whether the square holds no mine and is hidden.
fn safe_and_hidden(s: &Square) -> (r: bool)
    ensures
        r == (!s.mined() && !s.is_revealed),
{
    !s.is_mine() && !s.is_revealed
}

/// Whether the square holds a mine and is revealed.
fn mine_and_shown(s: &Square) -> (r: bool)
    ensures
        r == (s.mined() && s.is_revealed),
{
    s.is_mine() && s.is_revealed
}

/// Whether the square is flagged.
fn has_flag(s: &Square) -> (r: bool)
    ensures
        r == s.is_flagged,
{
    s.is_flagged
}

/// Whether the square is revealed.
fn is_shown(s: &Square) -> (r: bool)
    ensures
        r == s.is_revealed,
{
    s.is_revealed
}

impl GameBoard {
    /// True when every safe square is revealed; mines need not be flagged.
    pub fn is_win_configuration(&self) -> (r: bool)
        requires
            self.wf(),
        ensures
            r == self@.won(),
            r == (self@.safe_hidden() == 0),
    {
        proof {
            self@.lemma_won_iff();
        }
        let count = count_where(
            &self.squares,
            safe_and_hidden,
            Ghost(|s: Square| !s.mined() && !s.is_revealed),
        );
        count == 0
    }

    /// True when some mine is revealed.
    pub fn is_loss_configuration(&self) -> (r: bool)
        requires
            self.wf(),
        ensures
            r == self@.lost(),
            r == (self@.mines_shown() > 0),
    {
        proof {
            self@.lemma_lost_iff();
        }
        let count = count_where(
            &self.squares,
            mine_and_shown,
            Ghost(|s: Square| s.mined() && s.is_revealed),
        );
        count > 0
    }

    /// Number of flagged squares.
    pub fn num_flags(&self) -> (count: u32)
        requires
            self.wf(),
        ensures
            count == self@.flags(),
    {
        count_where(
            &self.squares,
            has_flag,
            Ghost(|s: Square| s.is_flagged),
        ) as u32
    }

    /// Number of revealed squares.
    pub fn num_revealed(&self) -> (count: u32)
        requires
            self.wf(),
        ensures
            count == self@.revealed(),
    {
        count_where(
            &self.squares,
            is_shown,
            Ghost(|s: Square| s.is_revealed),
        ) as u32
    }

    /// Puts a flag on every mine and takes it off every other square.
    pub fn flag_all_mines(&mut self)
        ensures
            final(self)@ == old(self)@.flag_mines(),
            final(self).same_setup(old(self)),
    {
        let n = self.squares.len();
        let mut i: usize = 0;
        while i < n
            invariant
                i <= n,
                n == self.squares@.len(),
                n == old(self).squares@.len(),
                self.same_setup(old(self)),
                forall|j: int|
                    0 <= j < i ==> self.squares@[j] == old(self)@.flag_mines().cells[j],
                forall|j: int| i <= j < n ==> self.squares@[j] == old(self).squares@[j],
            decreases n - i,
        {
            let s = self.squares[i];
            self.squares.set(i, Square { is_flagged: s.is_mine(), ..s });
            i += 1;
        }
        assert(self@.cells =~= old(self)@.flag_mines().cells);
    }

    /// Hides every square and takes every flag off; mines and numerals stay.
    pub fn reset_existing(&mut self)
        ensures
            final(self)@ == old(self)@.cover(),
            final(self).same_setup(old(self)),
    {
        let n = self.squares.len();
        let mut i: usize = 0;
        while i < n
            invariant
                i <= n,
                n == self.squares@.len(),
                n == old(self).squares@.len(),
                self.same_setup(old(self)),
                forall|j: int| 0 <= j < i ==> self.squares@[j] == old(self)@.cover().cells[j],
                forall|j: int| i <= j < n ==> self.squares@[j] == old(self).squares@[j],
            decreases n - i,
        {
            let s = self.squares[i];
            self.squares.set(i, Square { is_flagged: false, is_revealed: false, ..s });
            i += 1;
        }
        assert(self@.cells =~= old(self)@.cover().cells);
    }
}

} // verus!
