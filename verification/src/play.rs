//! The moves: flagging, revealing, the spread from a zero square, chording.

use vstd::prelude::*;
use crate::minesweeper::{
    lemma_cascade_view, outcomes, Coordinate, Error, GameBoard, Outcome, PlayResult, RevealType,
    Square,
};

verus! {

impl GameBoard {
    /// Replaces the square with index `idx`.
    fn set_square(&mut self, idx: u32, sq: Square)
        requires
            idx < old(self).squares@.len(),
        ensures
            final(self).squares@ == old(self).squares@.update(idx as int, sq),
            final(self).same_setup(old(self)),
    {
        self.squares.set(idx as usize, sq);
    }

    /// Toggles the flag of a hidden square; a revealed square is left alone.
    pub fn flag(&mut self, x: u32, y: u32) -> (r: Result<PlayResult, Error>)
        requires
            old(self).wf(),
        ensures
            final(self).wf(),
            final(self).same_setup(old(self)),
            match r {
                Ok(res) => {
                    &&& old(self)@.contains(x as int, y as int)
                    &&& final(self)@ == old(self)@.flag(x as int, y as int).0
                    &&& res@ == old(self)@.flag(x as int, y as int).1
                },
                Err(e) => {
                    &&& e == Error::InvalidCoordinates
                    &&& !old(self)@.contains(x as int, y as int)
                    &&& final(self)@ == old(self)@
                },
            },
    {
        if x >= self.width || y >= self.height {
            Err(Error::InvalidCoordinates)
        } else {
            let idx = self.xy_to_idx(x, y);
            let sqr = self.squares[idx as usize];
            if !sqr.is_revealed {
                let flagged = !sqr.is_flagged;
                self.set_square(idx, Square { is_flagged: flagged, ..sqr });
                Ok(PlayResult::Flagged(flagged))
            } else {
                Ok(PlayResult::NoChange)
            }
        }
    }

    /// Reveals the square at (x, y) and, from a zero square, all that the
    /// spread reaches.
    pub fn reveal_square(&mut self, x: u32, y: u32) -> (r: Result<PlayResult, Error>)
        requires
            old(self).wf(),
        ensures
            final(self).wf(),
            final(self).same_setup(old(self)),
            final(self)@.hidden() <= old(self)@.hidden(),
            final(self)@.follows(old(self)@),
            final(self)@.spread_from(old(self)@, x as int, y as int),
            final(self)@.opened_from(old(self)@, x as int, y as int),
            match r {
                Ok(res) => {
                    &&& old(self)@.contains(x as int, y as int)
                    &&& final(self)@ == old(self)@.reveal_at(x as int, y as int).0
                    &&& res@ == old(self)@.reveal_at(x as int, y as int).1
                    &&& final(self)@.done_at(x as int, y as int)
                },
                Err(e) => {
                    &&& e == Error::InvalidCoordinates
                    &&& !old(self)@.contains(x as int, y as int)
                    &&& final(self)@ == old(self)@
                },
            },
        decreases old(self)@.hidden(), 0int, 0int,
    {
        proof {
            self@.lemma_reveal_follows(x as int, y as int);
            self@.lemma_reveal_sound(x as int, y as int);
            self@.lemma_reveal_zone(x as int, y as int);
        }
        if x >= self.width || y >= self.height {
            Err(Error::InvalidCoordinates)
        } else {
            let idx = self.xy_to_idx(x, y);
            let sqr = self.squares[idx as usize];
            proof {
                self@.lemma_show_hidden(x as int, y as int);
            }
            if sqr.is_mine() && !sqr.is_flagged {
                self.set_square(idx, Square { is_revealed: true, ..sqr });
                Ok(PlayResult::Explosion(Coordinate { x, y }))
            } else if !sqr.is_mine() && !sqr.is_flagged && !sqr.is_revealed {
                if sqr.numeral == 0 {
                    self.cascade_from(x, y)
                } else {
                    self.set_square(idx, Square { is_revealed: true, ..sqr });
                    Ok(PlayResult::Revealed(Coordinate { x, y }))
                }
            } else {
                Ok(PlayResult::NoChange)
            }
        }
    }

    /// The spread from a safe, unflagged zero square: the square is revealed,
    /// then the nine squares of its block, one after the other.
    pub fn cascade_from(&mut self, x: u32, y: u32) -> (r: Result<PlayResult, Error>)
        requires
            old(self).wf(),
        ensures
            final(self).wf(),
            final(self).same_setup(old(self)),
            final(self)@.hidden() <= old(self)@.hidden(),
            final(self)@.follows(old(self)@),
            match r {
                Ok(res) => {
                    &&& old(self)@.contains(x as int, y as int)
                    &&& old(self)@.spreads(x as int, y as int)
                    &&& final(self)@ == old(self)@.cascade(x as int, y as int).0
                    &&& res@ == old(self)@.cascade(x as int, y as int).1
                },
                Err(e) => {
                    &&& final(self)@ == old(self)@
                    &&& if old(self)@.contains(x as int, y as int) {
                        e == Error::InvalidCascade && !old(self)@.spreads(x as int, y as int)
                    } else {
                        e == Error::InvalidCoordinates
                    }
                },
            },
        decreases old(self)@.show(x as int, y as int).hidden(), 2int, 0int,
    {
        proof {
            assert(self@.reveals_of(self@));
        }
        if x >= self.width || y >= self.height {
            return Err(Error::InvalidCoordinates);
        }
        let idx = self.xy_to_idx(x, y);
        let sqr = self.squares[idx as usize];
        if sqr.is_mine() || sqr.is_flagged || sqr.numeral > 0 {
            return Err(Error::InvalidCascade);
        }
        proof {
            self@.lemma_show_hidden(x as int, y as int);
            self@.lemma_cascade_follows(x as int, y as int);
        }
        self.set_square(idx, Square { is_revealed: true, ..sqr });
        let results = self.reveal_block(x, y);
        proof {
            lemma_cascade_view(results);
        }
        Ok(PlayResult::CascadedReveal(results))
    }

    /// Reveals the nine squares of the block around (x, y) in scan order and
    /// collects what each reveal did.
    fn reveal_block(&mut self, x: u32, y: u32) -> (results: Vec<PlayResult>)
        requires
            old(self).wf(),
        ensures
            final(self).wf(),
            final(self).same_setup(old(self)),
            final(self)@.hidden() <= old(self)@.hidden(),
            final(self)@ == old(self)@.scan(x as int, y as int, 9).0,
            outcomes(results@) == old(self)@.scan(x as int, y as int, 9).1,
        decreases old(self)@.hidden(), 1int, 9int,
    {
        let ghost start = self@;
        let mut results: Vec<PlayResult> = Vec::new();
        let mut k: i64 = 0;
        assert(outcomes(results@) =~= start.scan(x as int, y as int, 0).1);
        while k < 9
            invariant
                0 <= k <= 9,
                start == old(self)@,
                self.wf(),
                self.same_setup(old(self)),
                self@.hidden() <= start.hidden(),
                self@ == start.scan(x as int, y as int, k as nat).0,
                outcomes(results@) == start.scan(x as int, y as int, k as nat).1,
            decreases 9 - k,
        {
            let ghost before = self@;
            let ghost seen = results@;
            let dx: i64 = k % 3 - 1;
            let dy: i64 = k / 3 - 1;
            let r = self.reveal_protected(x as i64 + dx, y as i64 + dy);
            results.push(r);
            proof {
                assert(outcomes(results@) =~= outcomes(seen).push(r@));
            }
            k += 1;
        }
        results
    }

    /// Reveals (x, y) where it lies on the board; elsewhere nothing happens.
    fn reveal_protected(&mut self, x: i64, y: i64) -> (res: PlayResult)
        requires
            old(self).wf(),
        ensures
            final(self).wf(),
            final(self).same_setup(old(self)),
            final(self)@.hidden() <= old(self)@.hidden(),
            final(self)@ == old(self)@.reveal_at(x as int, y as int).0,
            res@ == old(self)@.reveal_at(x as int, y as int).1,
        decreases old(self)@.hidden(), 0int, 1int,
    {
        if x < 0 || y < 0 || x >= self.width as i64 || y >= self.height as i64 {
            return PlayResult::NoChange;
        }
        match self.reveal_square(x as u32, y as u32) {
            Ok(res) => res,
            Err(_) => PlayResult::NoChange,
        }
    }

    /// Whether the square may be chorded: its numeral is zero or equals the
    /// number of flags among its eight neighbours.
    pub fn can_chord_square(&self, x: u32, y: u32) -> (r: Result<bool, Error>)
        requires
            self.wf(),
        ensures
            match r {
                Ok(b) => self@.contains(x as int, y as int) && b == self@.can_chord(
                    x as int,
                    y as int,
                ),
                Err(e) => e == Error::InvalidCoordinates && !self@.contains(x as int, y as int),
            },
    {
        if x >= self.width || y >= self.height {
            return Err(Error::InvalidCoordinates);
        }
        let idx = self.xy_to_idx(x, y);
        let sqr = self.squares[idx as usize];
        if sqr.numeral == 0 {
            return Ok(true);
        }
        match self.flagged_neighbor_count(x, y) {
            Ok(n) => Ok(sqr.numeral == n),
            Err(e) => Err(e),
        }
    }

    /// Chords (x, y): where it may be chorded, reveals the nine squares of its
    /// block.
    pub fn chord(&mut self, x: u32, y: u32) -> (r: Result<PlayResult, Error>)
        requires
            old(self).wf(),
        ensures
            final(self).wf(),
            final(self).same_setup(old(self)),
            final(self)@.follows(old(self)@),
            match r {
                Ok(res) => {
                    &&& old(self)@.contains(x as int, y as int)
                    &&& final(self)@ == old(self)@.chord(x as int, y as int).0
                    &&& res@ == old(self)@.chord(x as int, y as int).1
                    &&& !old(self)@.can_chord(x as int, y as int) ==> res@ == Outcome::NoChange
                        && final(self)@ == old(self)@
                },
                Err(e) => {
                    &&& e == Error::InvalidCoordinates
                    &&& !old(self)@.contains(x as int, y as int)
                    &&& final(self)@ == old(self)@
                },
            },
    {
        proof {
            assert(self@.reveals_of(self@));
            self@.lemma_scan_follows(x as int, y as int, 9);
        }
        match self.can_chord_square(x, y) {
            Err(e) => Err(e),
            Ok(false) => Ok(PlayResult::NoChange),
            Ok(true) => {
                let results = self.reveal_block(x, y);
                proof {
                    lemma_cascade_view(results);
                }
                Ok(PlayResult::CascadedReveal(results))
            },
        }
    }

    /// Reveal, then chord, at the same square; the reveal's result comes
    /// last in the cascade that is returned.
    pub fn revealchord(&mut self, x: u32, y: u32) -> (r: Result<PlayResult, Error>)
        requires
            old(self).wf(),
        ensures
            final(self).wf(),
            final(self).same_setup(old(self)),
            final(self)@.follows(old(self)@),
            match r {
                Ok(res) => {
                    &&& old(self)@.contains(x as int, y as int)
                    &&& final(self)@ == old(self)@.revealchord(x as int, y as int).0
                    &&& res@ == old(self)@.revealchord(x as int, y as int).1
                },
                Err(e) => {
                    &&& e == Error::InvalidCoordinates
                    &&& !old(self)@.contains(x as int, y as int)
                    &&& final(self)@ == old(self)@
                },
            },
    {
        let rv = match self.reveal_square(x, y) {
            Ok(rv) => rv,
            Err(e) => {
                return Err(e);
            },
        };
        let ghost revealed = self@;
        let rc = match self.chord(x, y) {
            Ok(rc) => rc,
            Err(e) => {
                return Err(e);
            },
        };
        proof {
            self@.lemma_follows_twice(revealed, old(self)@);
        }
        match rc {
            PlayResult::CascadedReveal(mut v) => {
                let ghost chorded = v@;
                proof {
                    lemma_cascade_view(v);
                }
                v.push(rv);
                proof {
                    lemma_cascade_view(v);
                    assert(outcomes(v@) =~= outcomes(chorded).push(rv@));
                }
                Ok(PlayResult::CascadedReveal(v))
            },
            PlayResult::NoChange => {
                let mut v: Vec<PlayResult> = Vec::new();
                v.push(rv);
                proof {
                    lemma_cascade_view(v);
                    assert(outcomes(v@) =~= seq![rv@]);
                }
                Ok(PlayResult::CascadedReveal(v))
            },
            _ => Err(Error::UnexpectedResult),
        }
    }

    /// One move of the given kind at (x, y).
    pub fn play(&mut self, x: u32, y: u32, reveal_type: RevealType) -> (r: Result<PlayResult, Error>)
        requires
            old(self).wf(),
        ensures
            final(self).wf(),
            final(self).same_setup(old(self)),
            match r {
                Ok(res) => {
                    &&& old(self)@.contains(x as int, y as int)
                    &&& final(self)@ == old(self)@.play(x as int, y as int, reveal_type).0
                    &&& res@ == old(self)@.play(x as int, y as int, reveal_type).1
                },
                Err(e) => {
                    &&& e == Error::InvalidCoordinates
                    &&& !old(self)@.contains(x as int, y as int)
                    &&& final(self)@ == old(self)@
                },
            },
    {
        match reveal_type {
            RevealType::Flag => self.flag(x, y),
            RevealType::Reveal => self.reveal_square(x, y),
            RevealType::Chord => self.chord(x, y),
            RevealType::RevealChord => self.revealchord(x, y),
        }
    }
}

} // verus!
