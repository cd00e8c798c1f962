//! The mathematical model of a board: a grid of squares and what each move
//! makes of it.

use vstd::prelude::*;
use crate::minesweeper::{Coordinate, Outcome, RevealType, Square};
use crate::tally::{lemma_tally_update, lemma_tally_zero, tally, unit};

verus! {

/// Horizontal offset of the `k`-th cell of a 3x3 block, in scan order: the
/// block is read row by row, from the row above to the row below, each row
/// from left to right.
pub open spec fn scan_dx(k: int) -> int {
    k % 3 - 1
}

/// Vertical offset of the `k`-th cell of a 3x3 block, in scan order.
pub open spec fn scan_dy(k: int) -> int {
    k / 3 - 1
}

/// How many of the first `n` positions of the block around (x, y), in scan
/// order, satisfy `f`.
pub open spec fn block_count(f: spec_fn(int, int) -> bool, x: int, y: int, n: nat) -> nat
    decreases n,
{
    if n == 0 {
        0
    } else {
        block_count(f, x, y, (n - 1) as nat) + unit(f(x + scan_dx(n - 1), y + scan_dy(n - 1)))
    }
}

/// The positions around (x, y) that satisfy `f`, the centre left out.
pub open spec fn off_centre(f: spec_fn(int, int) -> bool, x: int, y: int) -> spec_fn(int, int) -> bool {
    |a: int, b: int| (a != x || b != y) && f(a, b)
}

/// Counted over the whole block with the centre left out, the count is the
/// sum of the units of the eight neighbours.
pub proof fn lemma_neighbor_count(f: spec_fn(int, int) -> bool, x: int, y: int)
    ensures
        block_count(off_centre(f, x, y), x, y, 9) == unit(f(x - 1, y - 1)) + unit(f(x, y - 1))
            + unit(f(x + 1, y - 1)) + unit(f(x - 1, y)) + unit(f(x + 1, y)) + unit(f(x - 1, y + 1))
            + unit(f(x, y + 1)) + unit(f(x + 1, y + 1)),
{
    reveal_with_fuel(block_count, 10);
}

/// A board as a mathematical value: its size and its squares, row by row.
pub ghost struct Grid {
    pub width: nat,
    pub height: nat,
    pub cells: Seq<Square>,
}

impl Grid {
    /// The grid of the given size on which every square is blank.
    pub open spec fn blank(width: nat, height: nat) -> Grid {
        Grid { width, height, cells: Seq::new(width * height, |i: int| Square::blank()) }
    }

    /// There is one square for each position.
    pub open spec fn wf(self) -> bool {
        self.cells.len() == self.width * self.height
    }

    /// (x, y) is a position of the grid.
    pub open spec fn contains(self, x: int, y: int) -> bool {
        0 <= x < self.width && 0 <= y < self.height
    }

    /// Row-major index of a position.
    pub open spec fn index(self, x: int, y: int) -> int {
        y * self.width + x
    }

    /// The square at (x, y).
    pub open spec fn at(self, x: int, y: int) -> Square {
        self.cells[self.index(x, y)]
    }

    /// A mine lies at (x, y); false outside the grid.
    pub open spec fn mine_at(self, x: int, y: int) -> bool {
        self.contains(x, y) && self.at(x, y).mined()
    }

    /// A flag stands at (x, y); false outside the grid.
    pub open spec fn flag_at(self, x: int, y: int) -> bool {
        self.contains(x, y) && self.at(x, y).is_flagged
    }

    /// Mines among the eight neighbours of (x, y).
    pub open spec fn mined_neighbors(self, x: int, y: int) -> nat {
        unit(self.mine_at(x - 1, y - 1)) + unit(self.mine_at(x, y - 1)) + unit(
            self.mine_at(x + 1, y - 1),
        ) + unit(self.mine_at(x - 1, y)) + unit(self.mine_at(x + 1, y)) + unit(
            self.mine_at(x - 1, y + 1),
        ) + unit(self.mine_at(x, y + 1)) + unit(self.mine_at(x + 1, y + 1))
    }

    /// Flags among the eight neighbours of (x, y).
    pub open spec fn flagged_neighbors(self, x: int, y: int) -> nat {
        unit(self.flag_at(x - 1, y - 1)) + unit(self.flag_at(x, y - 1)) + unit(
            self.flag_at(x + 1, y - 1),
        ) + unit(self.flag_at(x - 1, y)) + unit(self.flag_at(x + 1, y)) + unit(
            self.flag_at(x - 1, y + 1),
        ) + unit(self.flag_at(x, y + 1)) + unit(self.flag_at(x + 1, y + 1))
    }

    /// The grid with the square at (x, y) replaced.
    pub open spec fn put(self, x: int, y: int, sq: Square) -> Grid {
        Grid { cells: self.cells.update(self.index(x, y), sq), ..self }
    }

    /// The grid with the square at (x, y) revealed.
    pub open spec fn show(self, x: int, y: int) -> Grid {
        self.put(x, y, self.at(x, y).shown())
    }

    /// Number of squares not yet revealed.
    pub open spec fn hidden(self) -> nat {
        tally(self.cells, |s: Square| !s.is_revealed)
    }

    /// Number of mines.
    pub open spec fn mines(self) -> nat {
        tally(self.cells, |s: Square| s.mined())
    }

    /// Number of flags.
    pub open spec fn flags(self) -> nat {
        tally(self.cells, |s: Square| s.is_flagged)
    }

    /// Number of revealed squares.
    pub open spec fn revealed(self) -> nat {
        tally(self.cells, |s: Square| s.is_revealed)
    }

    /// Safe squares that are still hidden.
    pub open spec fn safe_hidden(self) -> nat {
        tally(self.cells, |s: Square| !s.mined() && !s.is_revealed)
    }

    /// Mines that have been revealed.
    pub open spec fn mines_shown(self) -> nat {
        tally(self.cells, |s: Square| s.mined() && s.is_revealed)
    }

    /// Every safe square is revealed.
    pub open spec fn won(self) -> bool {
        forall|i: int|
            0 <= i < self.cells.len() ==> (#[trigger] self.cells[i]).mined() || self.cells[i].is_revealed
    }

    /// Some mine is revealed.
    pub open spec fn lost(self) -> bool {
        exists|i: int|
            0 <= i < self.cells.len() && (#[trigger] self.cells[i]).mined() && self.cells[i].is_revealed
    }

    /// The grid with a flag on every mine and on nothing else.
    pub open spec fn flag_mines(self) -> Grid {
        Grid {
            cells: Seq::new(
                self.cells.len(),
                |i: int| Square { is_flagged: self.cells[i].mined(), ..self.cells[i] },
            ),
            ..self
        }
    }

    /// The grid with every square hidden and unflagged.
    pub open spec fn cover(self) -> Grid {
        Grid {
            cells: Seq::new(
                self.cells.len(),
                |i: int| Square { is_flagged: false, is_revealed: false, ..self.cells[i] },
            ),
            ..self
        }
    }

    /// Every numeral is the number of mines among the square's neighbours.
    pub open spec fn numbered(self) -> bool {
        forall|x: int, y: int|
            self.contains(x, y) ==> (#[trigger] self.at(x, y)).numeral == self.mined_neighbors(x, y)
    }

    /// `self` is `before` with the numeral of every square set to the number
    /// of mines among its neighbours.
    pub open spec fn numerals_of(self, before: Grid) -> bool {
        &&& self.width == before.width
        &&& self.height == before.height
        &&& self.cells.len() == before.cells.len()
        &&& forall|x: int, y: int|
            before.contains(x, y) ==> (#[trigger] self.at(x, y)) == (Square {
                numeral: before.mined_neighbors(x, y) as u32,
                ..before.at(x, y)
            })
    }

    /// Toggling the flag at (x, y): a revealed square is left alone.
    pub open spec fn flag(self, x: int, y: int) -> (Grid, Outcome) {
        let sq = self.at(x, y);
        if sq.is_revealed {
            (self, Outcome::NoChange)
        } else {
            (
                self.put(x, y, Square { is_flagged: !sq.is_flagged, ..sq }),
                Outcome::Flagged(!sq.is_flagged),
            )
        }
    }

    /// A square from which a reveal spreads: safe, unflagged, numeral zero.
    pub open spec fn spreads(self, x: int, y: int) -> bool {
        let sq = self.at(x, y);
        !sq.mined() && !sq.is_flagged && sq.numeral == 0
    }

    /// Revealing (x, y). Outside the grid nothing happens. An unflagged mine
    /// explodes; a hidden, unflagged safe square is revealed, and the reveal
    /// spreads from it when its numeral is zero; every other square is left alone.
    pub open spec fn reveal_at(self, x: int, y: int) -> (Grid, Outcome)
        decreases self.hidden(), 0int, 0int,
    {
        if !(self.wf() && self.contains(x, y)) {
            (self, Outcome::NoChange)
        } else {
            let sq = self.at(x, y);
            let here = Coordinate { x: x as u32, y: y as u32 };
            if sq.mined() && !sq.is_flagged {
                (self.show(x, y), Outcome::Explosion(here))
            } else if !sq.mined() && !sq.is_flagged && !sq.is_revealed {
                if sq.numeral == 0 {
                    proof {
                        self.lemma_show_hidden(x, y);
                    }
                    self.cascade(x, y)
                } else {
                    (self.show(x, y), Outcome::Revealed(here))
                }
            } else {
                (self, Outcome::NoChange)
            }
        }
    }

    /// The spread from (x, y): the square is revealed, then the nine squares of
    /// its block are revealed one after the other, each on the grid the
    /// previous ones left.
    pub open spec fn cascade(self, x: int, y: int) -> (Grid, Outcome)
        decreases self.show(x, y).hidden(), 2int, 0int,
    {
        let (g, rs) = self.show(x, y).scan(x, y, 9);
        (g, Outcome::Cascade(rs))
    }

    /// Revealing the first `n` squares of the block around (x, y) in scan
    /// order. The test on the number of hidden squares always holds (see
    /// `lemma_scan_hidden`); it is what makes the definition well-founded.
    pub open spec fn scan(self, x: int, y: int, n: nat) -> (Grid, Seq<Outcome>)
        decreases self.hidden(), 1int, n,
    {
        if n == 0 {
            (self, Seq::empty())
        } else {
            let k = n - 1;
            let (g, rs) = self.scan(x, y, k as nat);
            if g.hidden() <= self.hidden() {
                let (h, r) = g.reveal_at(x + scan_dx(k), y + scan_dy(k));
                (h, rs.push(r))
            } else {
                (g, rs)
            }
        }
    }

    /// Whether (x, y) may be chorded: its numeral is zero or equals the number
    /// of flags among its neighbours.
    pub open spec fn can_chord(self, x: int, y: int) -> bool {
        self.at(x, y).numeral == 0 || self.at(x, y).numeral == self.flagged_neighbors(x, y)
    }

    /// Chording (x, y): where it may be chorded, the nine squares of its block
    /// are revealed in scan order.
    pub open spec fn chord(self, x: int, y: int) -> (Grid, Outcome) {
        if self.can_chord(x, y) {
            let (g, rs) = self.scan(x, y, 9);
            (g, Outcome::Cascade(rs))
        } else {
            (self, Outcome::NoChange)
        }
    }

    /// Reveal, then chord on what the reveal left; the reveal's outcome is
    /// appended to the chord's.
    pub open spec fn revealchord(self, x: int, y: int) -> (Grid, Outcome) {
        let (g, rv) = self.reveal_at(x, y);
        let (h, rc) = g.chord(x, y);
        match rc {
            Outcome::Cascade(rs) => (h, Outcome::Cascade(rs.push(rv))),
            _ => (h, Outcome::Cascade(seq![rv])),
        }
    }

    /// One move of the given kind at (x, y).
    pub open spec fn play(self, x: int, y: int, kind: RevealType) -> (Grid, Outcome) {
        match kind {
            RevealType::Flag => self.flag(x, y),
            RevealType::Reveal => self.reveal_at(x, y),
            RevealType::Chord => self.chord(x, y),
            RevealType::RevealChord => self.revealchord(x, y),
        }
    }

    /// Flagging a hidden square twice leaves the grid as it was: the first
    /// call reports the new flag state, the second the old one, and no other
    /// square is touched by either.
    pub proof fn law_flag_twice(self, x: int, y: int)
        requires
            self.wf(),
            self.contains(x, y),
            !self.at(x, y).is_revealed,
        ensures
            self.flag(x, y).1 == Outcome::Flagged(!self.at(x, y).is_flagged),
            self.flag(x, y).0.flag(x, y).1 == Outcome::Flagged(self.at(x, y).is_flagged),
            self.flag(x, y).0.flag(x, y).0 == self,
            forall|i: int|
                0 <= i < self.cells.len() && i != self.index(x, y) ==> self.flag(x, y).0.cells[i]
                    == self.cells[i],
            self.flag(x, y).0.at(x, y) == (Square {
                is_flagged: !self.at(x, y).is_flagged,
                ..self.at(x, y)
            }),
    {
        self.lemma_index_in_range(x, y);
        assert(self.flag(x, y).0.flag(x, y).0.cells =~= self.cells);
    }

    /// A revealed square cannot be flagged: the grid stays as it is.
    pub proof fn law_flag_revealed(self, x: int, y: int)
        requires
            self.at(x, y).is_revealed,
        ensures
            self.flag(x, y) == (self, Outcome::NoChange),
    {
    }

    /// Chording is refused, and changes nothing, on a square whose numeral is
    /// neither zero nor the number of flags among its eight neighbours, be it
    /// larger or smaller.
    pub proof fn law_chord_refused(self, x: int, y: int)
        requires
            self.at(x, y).numeral != 0,
            self.at(x, y).numeral != self.flagged_neighbors(x, y),
        ensures
            self.chord(x, y) == (self, Outcome::NoChange),
    {
    }

    /// Revealing a hidden square leaves one hidden square fewer.
    pub proof fn lemma_show_hidden(self, x: int, y: int)
        requires
            self.wf(),
            self.contains(x, y),
        ensures
            self.show(x, y).hidden() + unit(!self.at(x, y).is_revealed) == self.hidden(),
            self.show(x, y).wf(),
    {
        self.lemma_index_in_range(x, y);
        lemma_tally_update(
            self.cells,
            |s: Square| !s.is_revealed,
            self.index(x, y),
            self.at(x, y).shown(),
        );
    }

    /// Two positions of the grid with one index are one position.
    pub proof fn lemma_index_unique(self, x1: int, y1: int, x2: int, y2: int)
        requires
            self.contains(x1, y1),
            self.contains(x2, y2),
            self.index(x1, y1) == self.index(x2, y2),
        ensures
            x1 == x2,
            y1 == y2,
    {
        let w = self.width as int;
        assert(y1 == y2) by (nonlinear_arith)
            requires
                0 <= x1 < w,
                0 <= x2 < w,
                y1 * w + x1 == y2 * w + x2,
        ;
    }

    /// The board is won exactly when no safe square is hidden.
    pub proof fn lemma_won_iff(self)
        ensures
            self.won() <==> self.safe_hidden() == 0,
    {
        lemma_tally_zero(self.cells, |s: Square| !s.mined() && !s.is_revealed);
    }

    /// The board is lost exactly when a revealed mine is counted.
    pub proof fn lemma_lost_iff(self)
        ensures
            self.lost() <==> self.mines_shown() > 0,
    {
        lemma_tally_zero(self.cells, |s: Square| s.mined() && s.is_revealed);
    }

    /// The index of a position of the grid is an index of its squares.
    pub proof fn lemma_index_in_range(self, x: int, y: int)
        requires
            self.wf(),
            self.contains(x, y),
        ensures
            0 <= self.index(x, y) < self.cells.len(),
    {
        assert(y * self.width + x < self.width * self.height) by (nonlinear_arith)
            requires
                0 <= x < self.width,
                0 <= y < self.height,
        ;
        assert(0 <= y * self.width) by (nonlinear_arith)
            requires
                0 <= y,
                0 <= self.width,
        ;
    }
}

} // verus!
