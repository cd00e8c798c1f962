//! What holds of every reveal: squares only ever go from hidden to revealed,
//! and a spread stops only at flags, at numbered squares and at the edge.

use vstd::prelude::*;
use crate::grid::{scan_dx, scan_dy, Grid};
use crate::minesweeper::{Coordinate, Outcome};

verus! {

impl Grid {
    /// `self` comes from `before` by revealing unflagged squares: nothing
    /// else differs.
    pub open spec fn reveals_of(self, before: Grid) -> bool {
        &&& self.width == before.width
        &&& self.height == before.height
        &&& self.cells.len() == before.cells.len()
        &&& forall|i: int|
            0 <= i < self.cells.len() ==> (#[trigger] self.cells[i]) == before.cells[i] || (
            !before.cells[i].is_flagged && self.cells[i] == before.cells[i].shown())
    }

    /// The square at (x, y) needs no reveal any more: it is off the grid,
    /// revealed or flagged.
    pub open spec fn done_at(self, x: int, y: int) -> bool {
        self.contains(x, y) ==> self.at(x, y).is_revealed || self.at(x, y).is_flagged
    }

    /// Every zero square that is revealed in `self` and was hidden in
    /// `before` has its whole block revealed or flagged.
    pub open spec fn settled_since(self, before: Grid) -> bool {
        forall|a: int, b: int, k: int|
            #![trigger self.at(a, b), scan_dx(k)]
            self.contains(a, b) && 0 <= k < 9 && !before.at(a, b).is_revealed && self.at(
                a,
                b,
            ).is_revealed && self.spreads(a, b) ==> self.done_at(a + scan_dx(k), b + scan_dy(k))
    }

    /// What every reveal keeps: the grid stays well formed, squares are only
    /// revealed, none is hidden again, and the spread is complete.
    pub open spec fn follows(self, before: Grid) -> bool {
        &&& self.wf()
        &&& self.reveals_of(before)
        &&& self.hidden() <= before.hidden()
        &&& self.settled_since(before)
    }

    /// A square of a later grid is the square of the earlier one, revealed
    /// or not.
    pub proof fn lemma_reveals_at(self, before: Grid, x: int, y: int)
        requires
            before.wf(),
            self.reveals_of(before),
            self.contains(x, y),
        ensures
            self.at(x, y) == before.at(x, y) || (!before.at(x, y).is_flagged && self.at(x, y)
                == before.at(x, y).shown()),
            before.done_at(x, y) ==> self.done_at(x, y),
            self.spreads(x, y) == before.spreads(x, y),
    {
        before.lemma_index_in_range(x, y);
        assert(self.cells[self.index(x, y)] == before.cells[self.index(x, y)] || (
        !before.cells[self.index(x, y)].is_flagged && self.cells[self.index(x, y)]
            == before.cells[self.index(x, y)].shown()));
    }

    /// A square that is done stays done.
    pub proof fn lemma_done_stays(self, before: Grid, x: int, y: int)
        requires
            before.wf(),
            self.reveals_of(before),
            before.done_at(x, y),
        ensures
            self.done_at(x, y),
    {
        if self.contains(x, y) {
            self.lemma_reveals_at(before, x, y);
        }
    }

    /// Reveals after reveals are reveals, and what was settled stays settled.
    pub proof fn lemma_follows_twice(self, middle: Grid, before: Grid)
        requires
            before.wf(),
            middle.follows(before),
            self.follows(middle),
        ensures
            self.follows(before),
    {
        assert forall|i: int| 0 <= i < self.cells.len() implies (#[trigger] self.cells[i])
            == before.cells[i] || (!before.cells[i].is_flagged && self.cells[i]
            == before.cells[i].shown()) by {
            assert(middle.cells[i] == before.cells[i] || (!before.cells[i].is_flagged
                && middle.cells[i] == before.cells[i].shown()));
        }
        assert forall|a: int, b: int, k: int|
            #![trigger self.at(a, b), scan_dx(k)]
            self.contains(a, b) && 0 <= k < 9 && !before.at(a, b).is_revealed && self.at(
                a,
                b,
            ).is_revealed && self.spreads(a, b) implies self.done_at(
            a + scan_dx(k),
            b + scan_dy(k),
        ) by {
            self.lemma_reveals_at(middle, a, b);
            middle.lemma_reveals_at(before, a, b);
            if middle.at(a, b).is_revealed {
                assert(middle.done_at(a + scan_dx(k), b + scan_dy(k)));
                self.lemma_done_stays(middle, a + scan_dx(k), b + scan_dy(k));
            }
        }
    }

    /// Revealing one square is a reveal, and settles nothing by itself
    /// unless the square is no zero square.
    pub proof fn lemma_show_reveals(self, x: int, y: int)
        requires
            self.wf(),
            self.contains(x, y),
            !self.at(x, y).is_flagged,
        ensures
            self.show(x, y).wf(),
            self.show(x, y).reveals_of(self),
            self.show(x, y).hidden() <= self.hidden(),
            self.show(x, y).done_at(x, y),
            forall|a: int, b: int|
                self.contains(a, b) && (a != x || b != y) ==> self.show(x, y).at(a, b) == self.at(
                    a,
                    b,
                ),
    {
        self.lemma_show_hidden(x, y);
        self.lemma_index_in_range(x, y);
        assert forall|a: int, b: int| self.contains(a, b) && (a != x || b != y) implies self.show(
            x,
            y,
        ).at(a, b) == self.at(a, b) by {
            self.lemma_index_in_range(a, b);
            if self.index(a, b) == self.index(x, y) {
                self.lemma_index_unique(a, b, x, y);
            }
        }
    }

    /// Every reveal follows from the grid it started on, and leaves its
    /// target done.
    pub proof fn lemma_reveal_follows(self, x: int, y: int)
        requires
            self.wf(),
        ensures
            self.reveal_at(x, y).0.follows(self),
            self.reveal_at(x, y).0.done_at(x, y),
        decreases self.hidden(), 0int, 0int,
    {
        if self.contains(x, y) {
            let sq = self.at(x, y);
            if sq.mined() && !sq.is_flagged {
                self.lemma_show_reveals(x, y);
                self.lemma_index_in_range(x, y);
            } else if !sq.mined() && !sq.is_flagged && !sq.is_revealed {
                if sq.numeral == 0 {
                    self.lemma_show_hidden(x, y);
                    self.lemma_cascade_follows(x, y);
                } else {
                    self.lemma_show_reveals(x, y);
                    self.lemma_index_in_range(x, y);
                }
            }
        }
    }

    /// The spread from a zero square follows from the grid it started on and
    /// leaves the square's whole block done.
    pub proof fn lemma_cascade_follows(self, x: int, y: int)
        requires
            self.wf(),
            self.contains(x, y),
            !self.at(x, y).is_flagged,
        ensures
            self.cascade(x, y).0.follows(self),
            self.cascade(x, y).0.done_at(x, y),
            forall|k: int| 0 <= k < 9 ==> self.cascade(x, y).0.done_at(x + scan_dx(k), y + scan_dy(k)),
            self.cascade(x, y).1 is Cascade,
            self.cascade(x, y).1->Cascade_0.len() == 9,
        decreases self.show(x, y).hidden(), 2int, 0int,
    {
        let m = self.show(x, y);
        self.lemma_show_reveals(x, y);
        m.lemma_scan_follows(x, y, 9);
        let g = m.scan(x, y, 9).0;
        g.lemma_done_stays(m, x, y);
        assert(g.reveals_of(self)) by {
            assert forall|i: int| 0 <= i < g.cells.len() implies (#[trigger] g.cells[i])
                == self.cells[i] || (!self.cells[i].is_flagged && g.cells[i]
                == self.cells[i].shown()) by {
                assert(m.cells[i] == self.cells[i] || (!self.cells[i].is_flagged && m.cells[i]
                    == self.cells[i].shown()));
            }
        }
        assert forall|a: int, b: int, k: int|
            #![trigger g.at(a, b), scan_dx(k)]
            g.contains(a, b) && 0 <= k < 9 && !self.at(a, b).is_revealed && g.at(a, b).is_revealed
                && g.spreads(a, b) implies g.done_at(a + scan_dx(k), b + scan_dy(k)) by {
            if a == x && b == y {
                assert(g.done_at(x + scan_dx(k), y + scan_dy(k)));
            } else {
                assert(m.at(a, b) == self.at(a, b));
            }
        }
    }

    /// Revealing the first `n` squares of a block follows from the grid it
    /// started on and leaves those squares done.
    pub proof fn lemma_scan_follows(self, x: int, y: int, n: nat)
        requires
            self.wf(),
        ensures
            self.scan(x, y, n).0.follows(self),
            self.scan(x, y, n).1.len() == n,
            forall|k: int| 0 <= k < n ==> self.scan(x, y, n).0.done_at(x + scan_dx(k), y + scan_dy(k)),
        decreases self.hidden(), 1int, n,
    {
        if n == 0 {
            assert(self.reveals_of(self));
        } else {
            let j = n - 1;
            self.lemma_scan_follows(x, y, j as nat);
            let g = self.scan(x, y, j as nat).0;
            g.lemma_reveal_follows(x + scan_dx(j), y + scan_dy(j));
            let h = g.reveal_at(x + scan_dx(j), y + scan_dy(j)).0;
            h.lemma_follows_twice(g, self);
            assert forall|k: int| 0 <= k < n implies h.done_at(x + scan_dx(k), y + scan_dy(k)) by {
                if k < j {
                    h.lemma_done_stays(g, x + scan_dx(k), y + scan_dy(k));
                }
            }
        }
    }

    /// The test in `scan` on the number of hidden squares always holds.
    pub proof fn lemma_scan_hidden(self, x: int, y: int, n: nat)
        requires
            self.wf(),
        ensures
            self.scan(x, y, n).0.hidden() <= self.hidden(),
    {
        self.lemma_scan_follows(x, y, n);
    }
}

impl Grid {
    /// Every mined square of `self` is as it was in `before`.
    pub open spec fn mines_untouched(self, before: Grid) -> bool {
        forall|i: int|
            0 <= i < self.cells.len() && (#[trigger] self.cells[i]).mined() ==> self.cells[i]
                == before.cells[i]
    }

    /// No reveal sets a mine off at (x, y): the position is off the grid, or
    /// holds no mine, or is flagged.
    pub open spec fn guarded_at(self, x: int, y: int) -> bool {
        !self.mine_at(x, y) || self.at(x, y).is_flagged
    }

    /// A guarded position stays guarded.
    pub proof fn lemma_guarded_stays(self, before: Grid, x: int, y: int)
        requires
            before.wf(),
            self.wf(),
            self.reveals_of(before),
            before.guarded_at(x, y),
        ensures
            self.guarded_at(x, y),
    {
        if self.contains(x, y) {
            self.lemma_reveals_at(before, x, y);
        }
    }

    /// Reveals move no mine and change no numeral: a numbered grid stays
    /// numbered.
    pub proof fn lemma_numbered_stays(self, before: Grid)
        requires
            before.wf(),
            self.wf(),
            self.reveals_of(before),
            before.numbered(),
        ensures
            self.numbered(),
            forall|x: int, y: int| self.mine_at(x, y) == before.mine_at(x, y),
    {
        assert forall|i: int| 0 <= i < self.cells.len() implies (#[trigger] self.cells[i]).mined()
            == before.cells[i].mined() by {}
        assert forall|x: int, y: int| self.mine_at(x, y) == before.mine_at(x, y) by {
            self.lemma_same_mine_at(before, x, y);
        }
        assert forall|x: int, y: int| self.contains(x, y) implies (#[trigger] self.at(
            x,
            y,
        )).numeral == self.mined_neighbors(x, y) by {
            self.lemma_same_mines_around(before, x, y);
            self.lemma_reveals_at(before, x, y);
        }
    }

    /// On a numbered grid no mine lies in the block of a zero square that
    /// holds none itself.
    pub proof fn lemma_zero_block(self, x: int, y: int, k: int)
        requires
            self.numbered(),
            self.contains(x, y),
            self.at(x, y).numeral == 0,
            !self.at(x, y).mined(),
            0 <= k < 9,
        ensures
            !self.mine_at(x + scan_dx(k), y + scan_dy(k)),
    {
        assert(self.at(x, y).numeral == self.mined_neighbors(x, y));
        if k == 0 {
            assert(scan_dx(k) == -1 && scan_dy(k) == -1);
        } else if k == 1 {
            assert(scan_dx(k) == 0 && scan_dy(k) == -1);
        } else if k == 2 {
            assert(scan_dx(k) == 1 && scan_dy(k) == -1);
        } else if k == 3 {
            assert(scan_dx(k) == -1 && scan_dy(k) == 0);
        } else if k == 4 {
            assert(scan_dx(k) == 0 && scan_dy(k) == 0);
        } else if k == 5 {
            assert(scan_dx(k) == 1 && scan_dy(k) == 0);
        } else if k == 6 {
            assert(scan_dx(k) == -1 && scan_dy(k) == 1);
        } else if k == 7 {
            assert(scan_dx(k) == 0 && scan_dy(k) == 1);
        } else {
            assert(scan_dx(k) == 1 && scan_dy(k) == 1);
        }
    }

    /// On a numbered grid, revealing a square that holds no mine, or a
    /// flagged one, reveals no mine at all.
    pub proof fn lemma_reveal_safe(self, x: int, y: int)
        requires
            self.wf(),
            self.numbered(),
            self.guarded_at(x, y),
        ensures
            self.reveal_at(x, y).0.mines_untouched(self),
            !self.reveal_at(x, y).1.explodes(),
        decreases self.hidden(), 0int, 0int,
    {
        if self.contains(x, y) {
            let sq = self.at(x, y);
            self.lemma_index_in_range(x, y);
            if !sq.mined() && !sq.is_flagged && !sq.is_revealed {
                if sq.numeral == 0 {
                    self.lemma_show_hidden(x, y);
                    self.lemma_cascade_safe(x, y);
                }
            }
        }
    }

    /// On a numbered grid the spread from a zero square reveals no mine.
    pub proof fn lemma_cascade_safe(self, x: int, y: int)
        requires
            self.wf(),
            self.numbered(),
            self.contains(x, y),
            self.spreads(x, y),
        ensures
            self.cascade(x, y).0.mines_untouched(self),
            !self.cascade(x, y).1.explodes(),
        decreases self.show(x, y).hidden(), 2int, 0int,
    {
        let m = self.show(x, y);
        self.lemma_show_reveals(x, y);
        self.lemma_index_in_range(x, y);
        m.lemma_numbered_stays(self);
        assert forall|k: int| 0 <= k < 9 implies m.guarded_at(x + scan_dx(k), y + scan_dy(k)) by {
            self.lemma_zero_block(x, y, k);
        }
        m.lemma_scan_safe(x, y, 9);
        m.lemma_scan_follows(x, y, 9);
        Outcome::lemma_no_explosion(m.scan(x, y, 9).1, 0);
    }

    /// On a numbered grid, revealing block squares of which each holds no
    /// mine or is flagged reveals no mine.
    pub proof fn lemma_scan_safe(self, x: int, y: int, n: nat)
        requires
            self.wf(),
            self.numbered(),
            forall|k: int| 0 <= k < n ==> self.guarded_at(x + scan_dx(k), y + scan_dy(k)),
        ensures
            self.scan(x, y, n).0.mines_untouched(self),
            forall|i: int| 0 <= i < n ==> !(#[trigger] self.scan(x, y, n).1[i]).explodes(),
        decreases self.hidden(), 1int, n,
    {
        if n > 0 {
            let j = n - 1;
            self.lemma_scan_safe(x, y, j as nat);
            self.lemma_scan_follows(x, y, j as nat);
            let g = self.scan(x, y, j as nat).0;
            let rs = self.scan(x, y, j as nat).1;
            g.lemma_numbered_stays(self);
            assert(self.guarded_at(x + scan_dx(j), y + scan_dy(j)));
            g.lemma_guarded_stays(self, x + scan_dx(j), y + scan_dy(j));
            g.lemma_reveal_safe(x + scan_dx(j), y + scan_dy(j));
            let h = g.reveal_at(x + scan_dx(j), y + scan_dy(j)).0;
            let r = g.reveal_at(x + scan_dx(j), y + scan_dy(j)).1;
            g.lemma_reveal_follows(x + scan_dx(j), y + scan_dy(j));
            assert(self.scan(x, y, n) == (h, rs.push(r)));
            assert forall|i: int| 0 <= i < h.cells.len() && (#[trigger] h.cells[i]).mined() implies h.cells[i]
                == self.cells[i] by {
                assert(h.cells[i] == g.cells[i]);
                assert(g.cells[i].mined());
            }
            assert forall|i: int| 0 <= i < n implies !(#[trigger] self.scan(x, y, n).1[i]).explodes() by {
                if i < j {
                    assert(rs.push(r)[i] == rs[i]);
                }
            }
        }
    }
}

impl Grid {
    /// The square at (x, y) was hidden in `before` and is revealed in `self`.
    pub open spec fn newly_shown(self, before: Grid, x: int, y: int) -> bool {
        self.contains(x, y) && !before.at(x, y).is_revealed && self.at(x, y).is_revealed
    }

    /// (x, y) lies in the block of a zero square that was hidden in `before`
    /// and is revealed in `self`.
    pub open spec fn reached(self, before: Grid, x: int, y: int) -> bool {
        exists|c: int, d: int|
            x - 1 <= c <= x + 1 && y - 1 <= d <= y + 1 && #[trigger] self.newly_shown(before, c, d)
                && self.spreads(c, d)
    }

    /// Every square that was hidden in `before` and is revealed in `self` is
    /// (x, y) or was reached from a zero square.
    pub open spec fn spread_from(self, before: Grid, x: int, y: int) -> bool {
        forall|a: int, b: int| #[trigger]
            self.newly_shown(before, a, b) ==> (a == x && b == y) || self.reached(before, a, b)
    }

    /// Every square that was hidden in `before` and is revealed in `self`
    /// lies in the block around (x, y) or was reached from a zero square.
    pub open spec fn spread_from_block(self, before: Grid, x: int, y: int) -> bool {
        forall|a: int, b: int| #[trigger]
            self.newly_shown(before, a, b) ==> (x - 1 <= a <= x + 1 && y - 1 <= b <= y + 1)
                || self.reached(before, a, b)
    }

    /// What was reached at an earlier stage, or from a later one, was
    /// reached.
    pub proof fn lemma_reached_twice(self, middle: Grid, before: Grid, a: int, b: int)
        requires
            before.wf(),
            middle.follows(before),
            self.follows(middle),
            middle.reached(before, a, b) || self.reached(middle, a, b),
        ensures
            self.reached(before, a, b),
    {
        if middle.reached(before, a, b) {
            let (c, d) = choose|c: int, d: int|
                a - 1 <= c <= a + 1 && b - 1 <= d <= b + 1 && #[trigger] middle.newly_shown(
                    before,
                    c,
                    d,
                ) && middle.spreads(c, d);
            self.lemma_reveals_at(middle, c, d);
            assert(self.newly_shown(before, c, d) && self.spreads(c, d));
        } else {
            let (c, d) = choose|c: int, d: int|
                a - 1 <= c <= a + 1 && b - 1 <= d <= b + 1 && #[trigger] self.newly_shown(
                    middle,
                    c,
                    d,
                ) && self.spreads(c, d);
            middle.lemma_reveals_at(before, c, d);
            assert(self.newly_shown(before, c, d) && self.spreads(c, d));
        }
    }

    /// A reveal shows nothing but its target and what the spread reaches.
    pub proof fn lemma_reveal_sound(self, x: int, y: int)
        requires
            self.wf(),
        ensures
            self.reveal_at(x, y).0.spread_from(self, x, y),
        decreases self.hidden(), 0int, 0int,
    {
        if self.contains(x, y) {
            let sq = self.at(x, y);
            if sq.mined() && !sq.is_flagged {
                self.lemma_show_reveals(x, y);
            } else if !sq.mined() && !sq.is_flagged && !sq.is_revealed {
                if sq.numeral == 0 {
                    self.lemma_show_hidden(x, y);
                    self.lemma_cascade_sound(x, y);
                } else {
                    self.lemma_show_reveals(x, y);
                }
            }
        }
    }

    /// The spread from a hidden zero square shows nothing but that square
    /// and what the spread reaches.
    pub proof fn lemma_cascade_sound(self, x: int, y: int)
        requires
            self.wf(),
            self.contains(x, y),
            self.spreads(x, y),
            !self.at(x, y).is_revealed,
        ensures
            self.cascade(x, y).0.spread_from(self, x, y),
        decreases self.show(x, y).hidden(), 2int, 0int,
    {
        let m = self.show(x, y);
        self.lemma_show_reveals(x, y);
        self.lemma_index_in_range(x, y);
        m.lemma_scan_sound(x, y, 9);
        m.lemma_scan_follows(x, y, 9);
        let h = m.scan(x, y, 9).0;
        h.lemma_reveals_at(m, x, y);
        assert(h.newly_shown(self, x, y) && h.spreads(x, y));
        assert forall|a: int, b: int| #[trigger] h.newly_shown(self, a, b) implies (a == x && b
            == y) || h.reached(self, a, b) by {
            if a != x || b != y {
                assert(m.at(a, b) == self.at(a, b));
                assert(h.newly_shown(m, a, b));
                if h.reached(m, a, b) {
                    let (c, d) = choose|c: int, d: int|
                        a - 1 <= c <= a + 1 && b - 1 <= d <= b + 1 && #[trigger] h.newly_shown(
                            m,
                            c,
                            d,
                        ) && h.spreads(c, d);
                    assert(m.at(c, d) == self.at(c, d));
                    assert(h.newly_shown(self, c, d));
                }
            }
        }
    }

    /// Revealing the first `n` squares of a block shows nothing but squares
    /// of the block and what the spread reaches from them.
    pub proof fn lemma_scan_sound(self, x: int, y: int, n: nat)
        requires
            self.wf(),
            n <= 9,
        ensures
            self.scan(x, y, n).0.spread_from_block(self, x, y),
        decreases self.hidden(), 1int, n,
    {
        if n > 0 {
            let j = n - 1;
            self.lemma_scan_sound(x, y, j as nat);
            self.lemma_scan_follows(x, y, j as nat);
            let g = self.scan(x, y, j as nat).0;
            let px = x + scan_dx(j);
            let py = y + scan_dy(j);
            g.lemma_reveal_sound(px, py);
            g.lemma_reveal_follows(px, py);
            let h = g.reveal_at(px, py).0;
            assert(self.scan(x, y, n).0 == h);
            assert(self.follows(self)) by {
                assert(self.reveals_of(self));
            }
            assert forall|a: int, b: int| #[trigger] h.newly_shown(self, a, b) implies (x - 1 <= a
                <= x + 1 && y - 1 <= b <= y + 1) || h.reached(self, a, b) by {
                g.lemma_reveals_at(self, a, b);
                if g.at(a, b).is_revealed {
                    assert(g.newly_shown(self, a, b));
                    if g.reached(self, a, b) {
                        h.lemma_reached_twice(g, self, a, b);
                    }
                } else {
                    assert(h.newly_shown(g, a, b));
                    if h.reached(g, a, b) {
                        h.lemma_reached_twice(g, self, a, b);
                    }
                }
            }
        }
    }
}

/// A reveal shows no more than the spread reaches: every square that it
/// reveals is its target or lies in the block of a zero square that it
/// reveals as well.
pub proof fn law_reveal_reaches_only(g: Grid, x: int, y: int, a: int, b: int)
    requires
        g.wf(),
        g.reveal_at(x, y).0.newly_shown(g, a, b),
    ensures
        (a == x && b == y) || g.reveal_at(x, y).0.reached(g, a, b),
{
    g.lemma_reveal_sound(x, y);
}

/// Where reveals have touched no mine, the board is lost exactly if it was.
pub proof fn lemma_untouched_lost(h: Grid, g: Grid)
    requires
        h.reveals_of(g),
        h.mines_untouched(g),
    ensures
        h.lost() == g.lost(),
{
    if g.lost() {
        let i = choose|i: int|
            0 <= i < g.cells.len() && (#[trigger] g.cells[i]).mined() && g.cells[i].is_revealed;
        assert(h.cells[i] == g.cells[i] || h.cells[i] == g.cells[i].shown());
        assert(h.cells[i].mined() && h.cells[i].is_revealed);
    }
    if h.lost() {
        let i = choose|i: int|
            0 <= i < h.cells.len() && (#[trigger] h.cells[i]).mined() && h.cells[i].is_revealed;
        assert(g.cells[i].mined() && g.cells[i].is_revealed);
    }
}

/// On a board whose numerals are written, revealing a square without a mine
/// never sets a mine off: no explosion is reported, no mine is revealed, and
/// the board is lost afterwards only if it was lost before.
pub proof fn law_safe_reveal(g: Grid, x: int, y: int)
    requires
        g.wf(),
        g.numbered(),
        g.contains(x, y),
        !g.at(x, y).mined(),
    ensures
        !g.reveal_at(x, y).1.explodes(),
        g.reveal_at(x, y).0.mines_untouched(g),
        g.reveal_at(x, y).0.lost() == g.lost(),
{
    g.lemma_reveal_safe(x, y);
    g.lemma_reveal_follows(x, y);
    lemma_untouched_lost(g.reveal_at(x, y).0, g);
}

/// Revealing an unflagged mine reports the explosion at that square, marks
/// the mine revealed and so loses the board.
pub proof fn law_mine_reveal_explodes(g: Grid, x: int, y: int)
    requires
        g.wf(),
        g.contains(x, y),
        g.at(x, y).mined(),
        !g.at(x, y).is_flagged,
        x <= u32::MAX,
        y <= u32::MAX,
    ensures
        g.reveal_at(x, y).1 == Outcome::Explosion(Coordinate { x: x as u32, y: y as u32 }),
        g.reveal_at(x, y).0 == g.show(x, y),
        g.reveal_at(x, y).0.lost(),
{
    g.lemma_index_in_range(x, y);
    let h = g.show(x, y);
    assert(h.cells[g.index(x, y)].mined() && h.cells[g.index(x, y)].is_revealed);
}

/// A reveal is complete: every zero square that it reveals has, when it
/// ends, all the squares of its block revealed or flagged. So a spread stops
/// only at numbered squares, at flags and at the edge of the board.
pub proof fn law_reveal_spreads_fully(g: Grid, x: int, y: int, a: int, b: int, c: int, d: int)
    requires
        g.wf(),
        g.contains(a, b),
        g.contains(c, d),
        a - 1 <= c <= a + 1,
        b - 1 <= d <= b + 1,
        !g.at(a, b).is_revealed,
        g.reveal_at(x, y).0.at(a, b).is_revealed,
        g.reveal_at(x, y).0.spreads(a, b),
    ensures
        g.reveal_at(x, y).0.at(c, d).is_revealed || g.reveal_at(x, y).0.at(c, d).is_flagged,
{
    g.lemma_reveal_follows(x, y);
    let h = g.reveal_at(x, y).0;
    let k = (d - b + 1) * 3 + (c - a + 1);
    assert(0 <= k < 9 && scan_dx(k) == c - a && scan_dy(k) == d - b);
    assert(h.done_at(a + scan_dx(k), b + scan_dy(k)));
}

/// Revealing a hidden, unflagged zero square without a mine gives a cascade
/// of nine parts, one for each square of its block.
pub proof fn law_zero_reveal_cascades(g: Grid, x: int, y: int)
    requires
        g.wf(),
        g.contains(x, y),
        g.spreads(x, y),
        !g.at(x, y).is_revealed,
    ensures
        g.reveal_at(x, y).1 is Cascade,
        g.reveal_at(x, y).1->Cascade_0.len() == 9,
        g.reveal_at(x, y).0.at(x, y).is_revealed,
{
    g.lemma_cascade_follows(x, y);
    g.lemma_show_hidden(x, y);
    g.reveal_at(x, y).0.lemma_reveals_at(g, x, y);
}

} // verus!
