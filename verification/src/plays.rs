//! The moves of one game, in the order in which they were made.

use vstd::prelude::*;
use crate::minesweeper::{Coordinate, RevealType};
use crate::tally::{copy_of, count_where, tally};

verus! {

/// One move: where it was made and of which kind it was.
#[derive(Debug, Clone, Copy)]
pub struct PlayEntry {
    pub coord: Coordinate,
    pub play_type: RevealType,
}

impl Default for PlayEntry {
    fn default() -> (e: Self)
        ensures
            e == (PlayEntry { coord: Coordinate { x: 0, y: 0 }, play_type: RevealType::Reveal }),
    {
        PlayEntry { coord: Coordinate { x: 0, y: 0 }, play_type: RevealType::Reveal }
    }
}

impl PlayEntry {
    /// The move reveals: a reveal, or a reveal with a chord.
    pub open spec fn reveals(self) -> bool {
        self.play_type == RevealType::Reveal || self.play_type == RevealType::RevealChord
    }

    /// The move sets or clears a flag.
    pub open spec fn flags(self) -> bool {
        self.play_type == RevealType::Flag
    }

    /// The move chords: a chord, or a reveal with a chord.
    pub open spec fn chords(self) -> bool {
        self.play_type == RevealType::Chord || self.play_type == RevealType::RevealChord
    }

    /// Whether the move reveals.
    pub fn is_reveal(&self) -> (r: bool)
        ensures
            r == self.reveals(),
    {
        match self.play_type {
            RevealType::Reveal | RevealType::RevealChord => true,
            _ => false,
        }
    }

    /// Whether the move sets or clears a flag.
    pub fn is_flag(&self) -> (r: bool)
        ensures
            r == self.flags(),
    {
        match self.play_type {
            RevealType::Flag => true,
            _ => false,
        }
    }

    /// Whether the move chords.
    pub fn is_chord(&self) -> (r: bool)
        ensures
            r == self.chords(),
    {
        match self.play_type {
            RevealType::Chord | RevealType::RevealChord => true,
            _ => false,
        }
    }
}

/// The list of moves.
#[derive(Debug)]
pub struct PlayList {
    pub list: Vec<PlayEntry>,
}

impl Clone for PlayList {
    fn clone(&self) -> (p: Self)
        ensures
            p.list@ == self.list@,
    {
        PlayList { list: copy_of(&self.list) }
    }
}

impl Default for PlayList {
    fn default() -> (p: Self)
        ensures
            p.list@.len() == 0,
    {
        PlayList { list: Vec::new() }
    }
}

impl PlayList {
    /// Adds a move at the end.
    pub fn push(&mut self, entry: PlayEntry)
        ensures
            final(self).list@ == old(self).list@.push(entry),
    {
        self.list.push(entry);
    }

    /// Forgets all moves.
    pub fn clear(&mut self)
        ensures
            final(self).list@.len() == 0,
    {
        self.list.clear();
    }

    /// Number of moves.
    pub fn len(&self) -> (n: usize)
        ensures
            n == self.list@.len(),
    {
        self.list.len()
    }

    /// Number of moves.
    pub fn clicks(&self) -> (n: u32)
        requires
            self.list@.len() <= u32::MAX,
        ensures
            n == self.list@.len(),
    {
        self.list.len() as u32
    }

    /// Number of moves that reveal.
    pub fn reveals(&self) -> (count: u32)
        requires
            self.list@.len() <= u32::MAX,
        ensures
            count == tally(self.list@, |e: PlayEntry| e.reveals()),
    {
        count_where(
            &self.list,
            PlayEntry::is_reveal,
            Ghost(|e: PlayEntry| e.reveals()),
        ) as u32
    }

    /// Number of moves that set or clear a flag.
    pub fn flagged(&self) -> (count: u32)
        requires
            self.list@.len() <= u32::MAX,
        ensures
            count == tally(self.list@, |e: PlayEntry| e.flags()),
    {
        count_where(
            &self.list,
            PlayEntry::is_flag,
            Ghost(|e: PlayEntry| e.flags()),
        ) as u32
    }

    /// Number of moves that chord.
    pub fn chords(&self) -> (count: u32)
        requires
            self.list@.len() <= u32::MAX,
        ensures
            count == tally(self.list@, |e: PlayEntry| e.chords()),
    {
        count_where(
            &self.list,
            PlayEntry::is_chord,
            Ghost(|e: PlayEntry| e.chords()),
        ) as u32
    }
}

/// Every move that both reveals and chords is counted twice, and a move that
/// sets a flag does neither: the three counts add up to the number of moves
/// plus the number of reveals with a chord.
pub proof fn law_counts_add_up(list: Seq<PlayEntry>)
    ensures
        tally(list, |e: PlayEntry| e.reveals()) + tally(list, |e: PlayEntry| e.flags()) + tally(
            list,
            |e: PlayEntry| e.chords(),
        ) == list.len() + tally(list, |e: PlayEntry| e.play_type == RevealType::RevealChord),
    decreases list.len(),
{
    if list.len() > 0 {
        law_counts_add_up(list.drop_last());
    }
}

} // verus!
