//! Which squares a reveal opens: those that the spread reaches, and no
//! others.

use vstd::prelude::*;
use crate::grid::{scan_dx, scan_dy, Grid};
use crate::spread::{law_reveal_spreads_fully, law_zero_reveal_cascades};

verus! {

/// The second position is the first or one of its eight neighbours.
pub open spec fn adjacent(p: (int, int), q: (int, int)) -> bool {
    p.0 - 1 <= q.0 <= p.0 + 1 && p.1 - 1 <= q.1 <= p.1 + 1
}

impl Grid {
    /// A square through which a reveal spreads: on the grid, hidden,
    /// unflagged, without a mine, its numeral zero.
    pub open spec fn open_at(self, x: int, y: int) -> bool {
        self.contains(x, y) && self.spreads(x, y) && !self.at(x, y).is_revealed
    }

    /// A walk over squares through which a reveal spreads, each step from
    /// one square to one of its eight neighbours.
    pub open spec fn is_chain(self, path: Seq<(int, int)>) -> bool {
        &&& path.len() > 0
        &&& forall|i: int| 0 <= i < path.len() ==> self.open_at((#[trigger] path[i]).0, path[i].1)
        &&& forall|i: int| 0 <= i < path.len() - 1 ==> adjacent(#[trigger] path[i], path[i + 1])
    }

    /// (a, b) is a square that such a walk from (x, y) reaches, or a
    /// neighbour of one.
    pub open spec fn near_zone(self, x: int, y: int, a: int, b: int) -> bool {
        exists|path: Seq<(int, int)>| #[trigger]
            self.is_chain(path) && path[0] == (x, y) && adjacent(path.last(), (a, b))
    }

    /// What a reveal at (x, y) opens besides what is revealed already: the
    /// unflagged squares of the grid that are reached from (x, y) or lie
    /// next to a square that is.
    pub open spec fn in_reach(self, x: int, y: int, a: int, b: int) -> bool {
        self.contains(a, b) && !self.at(a, b).is_flagged && self.near_zone(x, y, a, b)
    }

    /// Every square that was hidden in `before` and is revealed in `self`
    /// is (x, y) or lies in its reach.
    pub open spec fn opened_from(self, before: Grid, x: int, y: int) -> bool {
        forall|a: int, b: int| #[trigger]
            self.newly_shown(before, a, b) ==> (a == x && b == y) || before.near_zone(x, y, a, b)
    }

    /// Every square that was hidden in `before` and is revealed in `self`
    /// lies in the block around (x, y) or in the reach of one of its squares.
    pub open spec fn opened_from_block(self, before: Grid, x: int, y: int) -> bool {
        forall|a: int, b: int| #[trigger]
            self.newly_shown(before, a, b) ==> (x - 1 <= a <= x + 1 && y - 1 <= b <= y + 1)
                || exists|p: int, q: int|
                x - 1 <= p <= x + 1 && y - 1 <= q <= y + 1 && #[trigger] before.near_zone(p, q, a, b)
    }

    /// A square through which a reveal spreads on a later grid did so on the
    /// earlier one.
    pub proof fn lemma_open_earlier(self, before: Grid, x: int, y: int)
        requires
            before.wf(),
            self.reveals_of(before),
            self.open_at(x, y),
        ensures
            before.open_at(x, y),
    {
        self.lemma_reveals_at(before, x, y);
    }

    /// What lies in the reach of a square on a later grid did so on the
    /// earlier one.
    pub proof fn lemma_near_zone_earlier(self, before: Grid, x: int, y: int, a: int, b: int)
        requires
            before.wf(),
            self.reveals_of(before),
            self.near_zone(x, y, a, b),
        ensures
            before.near_zone(x, y, a, b),
    {
        let path = choose|path: Seq<(int, int)>| #[trigger]
            self.is_chain(path) && path[0] == (x, y) && adjacent(path.last(), (a, b));
        assert forall|i: int| 0 <= i < path.len() implies before.open_at(
            (#[trigger] path[i]).0,
            path[i].1,
        ) by {
            self.lemma_open_earlier(before, path[i].0, path[i].1);
        }
        assert(before.is_chain(path));
    }

    /// What lies in the reach of a neighbour of a square through which a
    /// reveal spreads lies in the reach of that square.
    pub proof fn lemma_near_zone_from_neighbour(self, x: int, y: int, p: int, q: int, a: int, b: int)
        requires
            self.open_at(x, y),
            x - 1 <= p <= x + 1,
            y - 1 <= q <= y + 1,
            self.near_zone(p, q, a, b),
        ensures
            self.near_zone(x, y, a, b),
    {
        let path = choose|path: Seq<(int, int)>| #[trigger]
            self.is_chain(path) && path[0] == (p, q) && adjacent(path.last(), (a, b));
        let longer = seq![(x, y)] + path;
        assert forall|i: int| 0 <= i < longer.len() implies self.open_at(
            (#[trigger] longer[i]).0,
            longer[i].1,
        ) by {
            if i > 0 {
                assert(longer[i] == path[i - 1]);
            }
        }
        assert forall|i: int| 0 <= i < longer.len() - 1 implies adjacent(
            #[trigger] longer[i],
            longer[i + 1],
        ) by {
            assert(longer[i + 1] == path[i]);
            if i > 0 {
                assert(longer[i] == path[i - 1]);
            }
        }
        assert(longer.last() == path.last());
        assert(self.is_chain(longer));
    }

    /// A square through which a reveal spreads lies in its own reach, and so
    /// do its neighbours.
    pub proof fn lemma_near_zone_start(self, x: int, y: int, a: int, b: int)
        requires
            self.open_at(x, y),
            x - 1 <= a <= x + 1,
            y - 1 <= b <= y + 1,
        ensures
            self.near_zone(x, y, a, b),
    {
        let path = seq![(x, y)];
        assert(self.is_chain(path));
    }

    /// A reveal opens nothing but its target and what lies in its reach.
    pub proof fn lemma_reveal_zone(self, x: int, y: int)
        requires
            self.wf(),
        ensures
            self.reveal_at(x, y).0.opened_from(self, x, y),
        decreases self.hidden(), 0int, 0int,
    {
        if self.contains(x, y) {
            let sq = self.at(x, y);
            if sq.mined() && !sq.is_flagged {
                self.lemma_show_reveals(x, y);
            } else if !sq.mined() && !sq.is_flagged && !sq.is_revealed {
                if sq.numeral == 0 {
                    self.lemma_show_hidden(x, y);
                    self.lemma_cascade_zone(x, y);
                } else {
                    self.lemma_show_reveals(x, y);
                }
            }
        }
    }

    /// The spread from a hidden zero square opens nothing but that square
    /// and what lies in its reach.
    pub proof fn lemma_cascade_zone(self, x: int, y: int)
        requires
            self.wf(),
            self.open_at(x, y),
        ensures
            self.cascade(x, y).0.opened_from(self, x, y),
        decreases self.show(x, y).hidden(), 2int, 0int,
    {
        let m = self.show(x, y);
        self.lemma_show_reveals(x, y);
        m.lemma_scan_zone(x, y, 9);
        m.lemma_scan_follows(x, y, 9);
        let h = m.scan(x, y, 9).0;
        assert forall|a: int, b: int| #[trigger] h.newly_shown(self, a, b) implies (a == x && b
            == y) || self.near_zone(x, y, a, b) by {
            if a != x || b != y {
                assert(m.at(a, b) == self.at(a, b));
                assert(h.newly_shown(m, a, b));
                if x - 1 <= a <= x + 1 && y - 1 <= b <= y + 1 {
                    self.lemma_near_zone_start(x, y, a, b);
                } else {
                    let (p, q) = choose|p: int, q: int|
                        x - 1 <= p <= x + 1 && y - 1 <= q <= y + 1 && #[trigger] m.near_zone(
                            p,
                            q,
                            a,
                            b,
                        );
                    m.lemma_near_zone_earlier(self, p, q, a, b);
                    self.lemma_near_zone_from_neighbour(x, y, p, q, a, b);
                }
            }
        }
    }

    /// Revealing the first `n` squares of a block opens nothing but squares
    /// of the block and what lies in their reach.
    pub proof fn lemma_scan_zone(self, x: int, y: int, n: nat)
        requires
            self.wf(),
            n <= 9,
        ensures
            self.scan(x, y, n).0.opened_from_block(self, x, y),
        decreases self.hidden(), 1int, n,
    {
        if n > 0 {
            let j = n - 1;
            self.lemma_scan_zone(x, y, j as nat);
            self.lemma_scan_follows(x, y, j as nat);
            let g = self.scan(x, y, j as nat).0;
            let px = x + scan_dx(j);
            let py = y + scan_dy(j);
            g.lemma_reveal_zone(px, py);
            g.lemma_reveal_follows(px, py);
            let h = g.reveal_at(px, py).0;
            assert(self.scan(x, y, n).0 == h);
            assert forall|a: int, b: int| #[trigger] h.newly_shown(self, a, b) implies (x - 1 <= a
                <= x + 1 && y - 1 <= b <= y + 1) || exists|p: int, q: int|
                x - 1 <= p <= x + 1 && y - 1 <= q <= y + 1 && #[trigger] self.near_zone(
                    p,
                    q,
                    a,
                    b,
                ) by {
                g.lemma_reveals_at(self, a, b);
                if g.at(a, b).is_revealed {
                    assert(g.newly_shown(self, a, b));
                } else {
                    assert(h.newly_shown(g, a, b));
                    if !(a == px && b == py) {
                        g.lemma_near_zone_earlier(self, px, py, a, b);
                        assert(self.near_zone(px, py, a, b));
                    }
                }
            }
        }
    }

    /// Every square of a walk that starts on a square opened by a reveal is
    /// opened by that reveal.
    pub proof fn lemma_chain_opened(self, x0: int, y0: int, path: Seq<(int, int)>, i: int)
        requires
            self.wf(),
            self.is_chain(path),
            self.reveal_at(x0, y0).0.newly_shown(self, path[0].0, path[0].1),
            0 <= i < path.len(),
        ensures
            self.reveal_at(x0, y0).0.newly_shown(self, path[i].0, path[i].1),
        decreases i,
    {
        let h = self.reveal_at(x0, y0).0;
        if i > 0 {
            self.lemma_chain_opened(x0, y0, path, i - 1);
            let (x, y) = path[i - 1];
            let (c, d) = path[i];
            assert(adjacent(path[i - 1], path[i - 1 + 1]));
            assert(self.open_at(path[i - 1].0, path[i - 1].1));
            assert(self.open_at(path[i].0, path[i].1));
            self.lemma_reveal_follows(x0, y0);
            h.lemma_reveals_at(self, x, y);
            h.lemma_reveals_at(self, c, d);
            law_reveal_spreads_fully(self, x0, y0, x, y, c, d);
        }
    }
}

/// A reveal on a hidden zero square opens exactly its reach: afterwards a
/// square is revealed if and only if it was revealed before, or it has no
/// flag and is a square reached from the target over hidden zero squares
/// without mine or flag, or a neighbour of such a square.
pub proof fn law_reveal_opens_exactly(g: Grid, x: int, y: int, a: int, b: int)
    requires
        g.wf(),
        g.open_at(x, y),
        g.contains(a, b),
    ensures
        g.reveal_at(x, y).0.at(a, b).is_revealed <==> g.at(a, b).is_revealed || g.in_reach(
            x,
            y,
            a,
            b,
        ),
{
    let h = g.reveal_at(x, y).0;
    g.lemma_reveal_follows(x, y);
    g.lemma_reveal_zone(x, y);
    h.lemma_reveals_at(g, a, b);
    law_zero_reveal_cascades(g, x, y);
    if h.at(a, b).is_revealed && !g.at(a, b).is_revealed {
        assert(h.newly_shown(g, a, b));
        if a == x && b == y {
            g.lemma_near_zone_start(x, y, a, b);
        }
    }
    if g.in_reach(x, y, a, b) {
        let path = choose|path: Seq<(int, int)>| #[trigger]
            g.is_chain(path) && path[0] == (x, y) && adjacent(path.last(), (a, b));
        assert(h.newly_shown(g, x, y));
        let (c, d) = path.last();
        g.lemma_chain_opened(x, y, path, path.len() - 1);
        assert(g.open_at(path[path.len() - 1].0, path[path.len() - 1].1));
        h.lemma_reveals_at(g, c, d);
        law_reveal_spreads_fully(g, x, y, c, d, a, b);
    }
}

} // verus!
