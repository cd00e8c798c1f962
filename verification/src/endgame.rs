//! Won or lost, never both: what the moves of a game in play can and cannot
//! do to its result.

use vstd::prelude::*;
use crate::grid::{scan_dx, scan_dy, Grid};
use crate::minesweeper::RevealType;
use crate::spread::lemma_untouched_lost;

verus! {

impl Grid {
    /// No square is both flagged and revealed.
    pub open spec fn tidy(self) -> bool {
        forall|i: int|
            0 <= i < self.cells.len() ==> !((#[trigger] self.cells[i]).is_flagged
                && self.cells[i].is_revealed)
    }

    /// A board as the moves of a game leave it: well formed, its numerals
    /// written, no square both flagged and revealed.
    pub open spec fn in_play(self) -> bool {
        &&& self.wf()
        &&& self.numbered()
        &&& self.tidy()
    }

    /// In the block around (x, y) each square holds no mine or is flagged.
    pub open spec fn block_guarded(self, x: int, y: int) -> bool {
        forall|c: int, d: int|
            x - 1 <= c <= x + 1 && y - 1 <= d <= y + 1 ==> #[trigger] self.guarded_at(c, d)
    }

    /// Reveals leave a board in play in play.
    pub proof fn lemma_in_play_stays(self, before: Grid)
        requires
            before.in_play(),
            self.wf(),
            self.reveals_of(before),
        ensures
            self.in_play(),
    {
        self.lemma_numbered_stays(before);
        assert forall|i: int| 0 <= i < self.cells.len() implies !((#[trigger] self.cells[i]).is_flagged
            && self.cells[i].is_revealed) by {
            assert(!(before.cells[i].is_flagged && before.cells[i].is_revealed));
        }
    }

    /// A flag on a hidden square without a mine keeps the board from being
    /// won, whatever is revealed.
    pub proof fn lemma_wrong_flag_blocks_win(self, before: Grid, x: int, y: int)
        requires
            before.wf(),
            self.reveals_of(before),
            before.contains(x, y),
            before.at(x, y).is_flagged,
            !before.at(x, y).mined(),
            !before.at(x, y).is_revealed,
        ensures
            !self.won(),
    {
        before.lemma_index_in_range(x, y);
        let i = before.index(x, y);
        assert(self.cells[i] == before.cells[i]);
    }

    /// Where a square has as many flagged as mined neighbours and one of the
    /// mines among them has no flag, one of the flags stands on a neighbour
    /// without a mine.
    pub proof fn lemma_misplaced_flag(self, x: int, y: int, a: int, b: int)
        requires
            self.mined_neighbors(x, y) == self.flagged_neighbors(x, y),
            x - 1 <= a <= x + 1,
            y - 1 <= b <= y + 1,
            a != x || b != y,
            !self.guarded_at(a, b),
        ensures
            exists|c: int, d: int|
                x - 1 <= c <= x + 1 && y - 1 <= d <= y + 1 && #[trigger] self.flag_at(c, d)
                    && !self.mine_at(c, d),
    {
        if !(exists|c: int, d: int|
            x - 1 <= c <= x + 1 && y - 1 <= d <= y + 1 && #[trigger] self.flag_at(c, d)
                && !self.mine_at(c, d)) {
            assert(self.flag_at(x - 1, y - 1) ==> self.mine_at(x - 1, y - 1));
            assert(self.flag_at(x, y - 1) ==> self.mine_at(x, y - 1));
            assert(self.flag_at(x + 1, y - 1) ==> self.mine_at(x + 1, y - 1));
            assert(self.flag_at(x - 1, y) ==> self.mine_at(x - 1, y));
            assert(self.flag_at(x + 1, y) ==> self.mine_at(x + 1, y));
            assert(self.flag_at(x - 1, y + 1) ==> self.mine_at(x - 1, y + 1));
            assert(self.flag_at(x, y + 1) ==> self.mine_at(x, y + 1));
            assert(self.flag_at(x + 1, y + 1) ==> self.mine_at(x + 1, y + 1));
            assert(self.mine_at(a, b) && !self.flag_at(a, b));
            assert(false);
        }
    }

    /// A mine among the neighbours is counted.
    pub proof fn lemma_mine_counts(self, x: int, y: int, a: int, b: int)
        requires
            x - 1 <= a <= x + 1,
            y - 1 <= b <= y + 1,
            a != x || b != y,
            self.mine_at(a, b),
        ensures
            self.mined_neighbors(x, y) >= 1,
    {
    }

    /// The positions that a scan visits are those of the block.
    pub proof fn lemma_scan_in_block(k: int)
        requires
            0 <= k < 9,
        ensures
            -1 <= scan_dx(k) <= 1,
            -1 <= scan_dy(k) <= 1,
    {
    }

    /// A chord on a block in which each square holds no mine or is flagged
    /// sets no mine off.
    pub proof fn lemma_chord_guarded(self, x: int, y: int)
        requires
            self.wf(),
            self.numbered(),
            self.block_guarded(x, y),
        ensures
            self.scan(x, y, 9).0.lost() == self.lost(),
    {
        assert forall|k: int| 0 <= k < 9 implies self.guarded_at(
            x + scan_dx(k),
            y + scan_dy(k),
        ) by {
            Grid::lemma_scan_in_block(k);
        }
        self.lemma_scan_safe(x, y, 9);
        self.lemma_scan_follows(x, y, 9);
        lemma_untouched_lost(self.scan(x, y, 9).0, self);
    }

    /// Where a square may be chorded although a mine among its neighbours
    /// has no flag, a flag stands on a hidden square without a mine.
    pub proof fn lemma_chord_unguarded(self, x: int, y: int, a: int, b: int) -> (at: (int, int))
        requires
            self.in_play(),
            self.contains(x, y),
            self.can_chord(x, y),
            x - 1 <= a <= x + 1,
            y - 1 <= b <= y + 1,
            a != x || b != y,
            !self.guarded_at(a, b),
        ensures
            self.contains(at.0, at.1),
            self.at(at.0, at.1).is_flagged,
            !self.at(at.0, at.1).mined(),
            !self.at(at.0, at.1).is_revealed,
    {
        assert(self.at(x, y).numeral == self.mined_neighbors(x, y));
        self.lemma_mine_counts(x, y, a, b);
        self.lemma_misplaced_flag(x, y, a, b);
        let (c, d) = choose|c: int, d: int|
            x - 1 <= c <= x + 1 && y - 1 <= d <= y + 1 && #[trigger] self.flag_at(c, d)
                && !self.mine_at(c, d);
        self.lemma_index_in_range(c, d);
        assert(!(self.cells[self.index(c, d)].is_flagged && self.cells[self.index(
            c,
            d,
        )].is_revealed));
        (c, d)
    }

    /// Reveals move no flag.
    pub proof fn lemma_flag_at_stays(self, before: Grid, x: int, y: int)
        requires
            before.wf(),
            self.reveals_of(before),
        ensures
            self.flag_at(x, y) == before.flag_at(x, y),
    {
        if self.contains(x, y) {
            self.lemma_reveals_at(before, x, y);
        }
    }

    /// Reveals change neither the flags around a square nor whether it may
    /// be chorded.
    pub proof fn lemma_flags_stay(self, before: Grid, x: int, y: int)
        requires
            before.wf(),
            self.reveals_of(before),
            self.contains(x, y),
        ensures
            self.flagged_neighbors(x, y) == before.flagged_neighbors(x, y),
            self.can_chord(x, y) == before.can_chord(x, y),
    {
        self.lemma_flag_at_stays(before, x - 1, y - 1);
        self.lemma_flag_at_stays(before, x, y - 1);
        self.lemma_flag_at_stays(before, x + 1, y - 1);
        self.lemma_flag_at_stays(before, x - 1, y);
        self.lemma_flag_at_stays(before, x + 1, y);
        self.lemma_flag_at_stays(before, x - 1, y + 1);
        self.lemma_flag_at_stays(before, x, y + 1);
        self.lemma_flag_at_stays(before, x + 1, y + 1);
        self.lemma_reveals_at(before, x, y);
    }

    /// A chord that would set off the mine on its own square: the square
    /// holds an unflagged mine and may be chorded.
    pub open spec fn chord_sets_off_target(self, x: int, y: int) -> bool {
        !self.guarded_at(x, y) && self.can_chord(x, y)
    }

    /// What a chord does to the result of a game in play: where every square
    /// of the block holds no mine or is flagged, no mine goes off; where a
    /// neighbour does not, and the chord is made on a square that does, a
    /// wrongly placed flag keeps the board from being won.
    pub proof fn lemma_chord_result(self, x: int, y: int)
        requires
            self.in_play(),
            self.contains(x, y),
        ensures
            self.chord(x, y).0.in_play(),
            self.chord(x, y).0.reveals_of(self),
            self.block_guarded(x, y) ==> self.chord(x, y).0.lost() == self.lost(),
            self.guarded_at(x, y) && !self.block_guarded(x, y) ==> !self.chord(x, y).0.won()
                || self.chord(x, y).0 == self,
            !self.can_chord(x, y) ==> self.chord(x, y).0 == self,
    {
        let h = self.chord(x, y).0;
        if self.can_chord(x, y) {
            self.lemma_scan_follows(x, y, 9);
            h.lemma_in_play_stays(self);
            if self.block_guarded(x, y) {
                self.lemma_chord_guarded(x, y);
            } else if self.guarded_at(x, y) {
                let (a, b) = choose|a: int, b: int|
                    x - 1 <= a <= x + 1 && y - 1 <= b <= y + 1 && !#[trigger] self.guarded_at(a, b);
                let (c, d) = self.lemma_chord_unguarded(x, y, a, b);
                h.lemma_wrong_flag_blocks_win(self, c, d);
            }
        } else {
            assert(self.reveals_of(self));
        }
    }
}

/// Every move leaves a board in play in play: its numerals stay right, and
/// no square becomes both flagged and revealed.
pub proof fn law_moves_stay_in_play(g: Grid, x: int, y: int, kind: RevealType)
    requires
        g.in_play(),
        g.contains(x, y),
    ensures
        g.play(x, y, kind).0.in_play(),
{
    match kind {
        RevealType::Flag => {
            let h = g.flag(x, y).0;
            g.lemma_index_in_range(x, y);
            assert forall|a: int, b: int| h.contains(a, b) implies (#[trigger] h.at(a, b)).numeral
                == h.mined_neighbors(a, b) by {
                h.lemma_same_mines_around(g, a, b);
                g.lemma_index_in_range(a, b);
                assert(h.cells[g.index(a, b)].numeral == g.cells[g.index(a, b)].numeral);
                assert(g.at(a, b).numeral == g.mined_neighbors(a, b));
            }
            assert forall|i: int| 0 <= i < h.cells.len() implies !((#[trigger] h.cells[i]).is_flagged
                && h.cells[i].is_revealed) by {
                assert(!(g.cells[i].is_flagged && g.cells[i].is_revealed));
            }
        },
        RevealType::Reveal => {
            g.lemma_reveal_follows(x, y);
            g.reveal_at(x, y).0.lemma_in_play_stays(g);
        },
        RevealType::Chord => {
            g.lemma_chord_result(x, y);
        },
        RevealType::RevealChord => {
            let m = g.reveal_at(x, y).0;
            g.lemma_reveal_follows(x, y);
            m.lemma_in_play_stays(g);
            m.lemma_chord_result(x, y);
            assert(g.revealchord(x, y).0 == m.chord(x, y).0);
        },
    }
}

/// Won or lost, never both: on a board in play that is neither won nor lost,
/// no move leads to a board that is won and lost at once, unless it is a
/// chord made on a square whose own mine has no flag.
pub proof fn law_one_result(g: Grid, x: int, y: int, kind: RevealType)
    requires
        g.in_play(),
        g.contains(x, y),
        !g.won(),
        !g.lost(),
        kind == RevealType::Chord || kind == RevealType::RevealChord ==> !g.chord_sets_off_target(
            x,
            y,
        ),
    ensures
        !(g.play(x, y, kind).0.won() && g.play(x, y, kind).0.lost()),
{
    g.lemma_index_in_range(x, y);
    let i = g.index(x, y);
    let hidden_safe = choose|j: int|
        0 <= j < g.cells.len() && !(#[trigger] g.cells[j]).mined() && !g.cells[j].is_revealed;
    match kind {
        RevealType::Flag => {
            let h = g.flag(x, y).0;
            if h.lost() {
                let j = choose|j: int|
                    0 <= j < h.cells.len() && (#[trigger] h.cells[j]).mined() && h.cells[j].is_revealed;
                assert(g.cells[j].mined() && g.cells[j].is_revealed);
            }
        },
        RevealType::Reveal => {
            let h = g.reveal_at(x, y).0;
            if g.at(x, y).mined() {
                if !g.at(x, y).is_flagged {
                    assert(h.cells[hidden_safe] == g.cells[hidden_safe]);
                }
            } else {
                crate::spread::law_safe_reveal(g, x, y);
            }
        },
        RevealType::Chord => {
            g.lemma_chord_result(x, y);
        },
        RevealType::RevealChord => {
            let m = g.reveal_at(x, y).0;
            g.lemma_reveal_follows(x, y);
            m.lemma_in_play_stays(g);
            m.lemma_chord_result(x, y);
            m.lemma_reveals_at(g, x, y);
            m.lemma_flags_stay(g, x, y);
            let h = m.chord(x, y).0;
            assert(g.revealchord(x, y).0 == h);
            if g.at(x, y).mined() && !g.at(x, y).is_flagged {
                assert(m == g.show(x, y));
                assert(m.cells[hidden_safe] == g.cells[hidden_safe]);
                assert(!m.won());
                assert(!m.can_chord(x, y));
            } else {
                g.lemma_reveal_safe(x, y);
                lemma_untouched_lost(m, g);
                assert(!m.lost());
                m.lemma_guarded_stays(g, x, y);
            }
        },
    }
}

} // verus!
