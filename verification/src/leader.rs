//! The leaderboards: for each tier the best times, fastest first.

use vstd::prelude::*;
use crate::clock::{local_now, Stamp};
use crate::enums::GameDifficulty;

verus! {

/// How many entries a board keeps.
pub const MAX_ENTRIES_PER_BOARD: usize = 25;

/// One finished game: who played, when, and how long it took.
///
/// `time` holds the seconds as the 64 bits of an IEEE 754 double, so that no
/// time is rounded on its way through the board; `time_rank` gives the place
/// of such a value in the total order of doubles.
#[derive(Debug, PartialEq, Eq)]
pub struct Entry {
    pub player_name: String,
    pub date: Stamp,
    pub time: u64,
}

impl Clone for Entry {
    fn clone(&self) -> (e: Self)
        ensures
            e == *self,
    {
        Entry { player_name: self.player_name.clone(), date: self.date, time: self.time }
    }
}

/// The place of a double, given by its bits, in the total order of IEEE 754:
/// negative values below positive ones, a larger magnitude further from
/// zero, negative zero just below positive zero.
pub open spec fn time_rank(bits: u64) -> int {
    if bits < 0x8000_0000_0000_0000 {
        bits as int
    } else {
        0x7fff_ffff_ffff_ffff - bits
    }
}

/// The place of a double, given by its bits, in the total order.
pub fn rank_of(bits: u64) -> (r: i64)
    ensures
        r == time_rank(bits),
{
    if bits < 0x8000_0000_0000_0000 {
        bits as i64
    } else {
        let magnitude: u64 = bits - 0x8000_0000_0000_0000;
        -1i64 - (magnitude as i64)
    }
}

impl Entry {
    /// The place of the entry's time in the total order.
    pub open spec fn rank(self) -> int {
        time_rank(self.time)
    }
}

/// No entry has a time after that of an entry behind it.
pub open spec fn ascending(s: Seq<Entry>) -> bool {
    forall|i: int, j: int| 0 <= i < j < s.len() ==> s[i].rank() <= s[j].rank()
}

/// `s` with `e` put in from the back: behind the last entry that is not
/// slower than `e`.
pub open spec fn placed(s: Seq<Entry>, e: Entry) -> Seq<Entry>
    decreases s.len(),
{
    if s.len() > 0 && s.last().rank() > e.rank() {
        placed(s.drop_last(), e).push(s.last())
    } else {
        s.push(e)
    }
}

/// The entries by time, fastest first; entries with the same time keep their
/// order.
pub open spec fn ranked(s: Seq<Entry>) -> Seq<Entry>
    decreases s.len(),
{
    if s.len() == 0 {
        s
    } else {
        placed(ranked(s.drop_last()), s.last())
    }
}

/// The entries that a board keeps of `s`: the fastest, and no more than the
/// board holds.
pub open spec fn best(s: Seq<Entry>) -> Seq<Entry> {
    if s.len() > MAX_ENTRIES_PER_BOARD {
        ranked(s).take(MAX_ENTRIES_PER_BOARD as int)
    } else {
        ranked(s)
    }
}

/// Where `e` is slower than nothing before index `j` and faster than
/// everything from `j` on, it is placed at `j`.
pub proof fn lemma_placed_at(s: Seq<Entry>, e: Entry, j: int)
    requires
        0 <= j <= s.len(),
        forall|k: int| j <= k < s.len() ==> s[k].rank() > e.rank(),
        j > 0 ==> s[j - 1].rank() <= e.rank(),
    ensures
        placed(s, e) == s.insert(j, e),
    decreases s.len(),
{
    if j < s.len() {
        let d = s.drop_last();
        lemma_placed_at(d, e, j);
        assert(d.insert(j, e).push(s.last()) =~= s.insert(j, e));
    } else {
        assert(s.push(e) =~= s.insert(j, e));
    }
}

/// Placing an entry into ascending entries keeps them ascending and adds
/// that entry and nothing else.
pub proof fn lemma_placed(s: Seq<Entry>, e: Entry)
    requires
        ascending(s),
    ensures
        ascending(placed(s, e)),
        placed(s, e).len() == s.len() + 1,
        placed(s, e).to_multiset() == s.to_multiset().insert(e),
        forall|i: int| 0 <= i < placed(s, e).len() ==> placed(s, e)[i] == e || s.contains(placed(s, e)[i]),
    decreases s.len(),
{
    broadcast use vstd::seq_lib::to_multiset_build;

    if s.len() > 0 && s.last().rank() > e.rank() {
        let d = s.drop_last();
        assert(ascending(d)) by {
            assert forall|i: int, j: int| 0 <= i < j < d.len() implies d[i].rank() <= d[j].rank() by {
                assert(d[i] == s[i] && d[j] == s[j]);
            }
        }
        lemma_placed(d, e);
        let p = placed(d, e);
        let r = p.push(s.last());
        assert(s =~= d.push(s.last()));
        assert(r.to_multiset() == s.to_multiset().insert(e)) by {
            assert(p.to_multiset().insert(s.last()) =~= d.to_multiset().insert(s.last()).insert(e));
        }
        assert forall|i: int| 0 <= i < r.len() implies r[i] == e || s.contains(r[i]) by {
            if i < p.len() {
                if p[i] != e {
                    assert(d.contains(p[i]));
                    let k = choose|k: int| 0 <= k < d.len() && d[k] == p[i];
                    assert(s[k] == p[i]);
                }
            } else {
                assert(s[s.len() - 1] == r[i]);
            }
        }
        assert forall|i: int, j: int| 0 <= i < j < r.len() implies r[i].rank() <= r[j].rank() by {
            if j == r.len() - 1 {
                if p[i] != e {
                    assert(d.contains(p[i]));
                    let k = choose|k: int| 0 <= k < d.len() && d[k] == p[i];
                    assert(s[k].rank() <= s[s.len() - 1].rank());
                }
            }
        }
    } else {
        let r = s.push(e);
        assert forall|i: int| 0 <= i < r.len() implies r[i] == e || s.contains(r[i]) by {
            if i < s.len() {
                assert(s[i] == r[i]);
            }
        }
        assert forall|i: int, j: int| 0 <= i < j < r.len() implies r[i].rank() <= r[j].rank() by {
            if j == s.len() {
                if s.len() > 0 {
                    assert(s[i].rank() <= s[s.len() - 1].rank());
                }
            }
        }
    }
}

/// Ranking orders the entries by time and neither adds nor loses one.
pub proof fn lemma_ranked(s: Seq<Entry>)
    ensures
        ascending(ranked(s)),
        ranked(s).len() == s.len(),
        ranked(s).to_multiset() == s.to_multiset(),
    decreases s.len(),
{
    broadcast use vstd::seq_lib::to_multiset_build;

    if s.len() > 0 {
        lemma_ranked(s.drop_last());
        lemma_placed(ranked(s.drop_last()), s.last());
        assert(s =~= s.drop_last().push(s.last()));
    }
}

/// What a board keeps is in ascending order, is no longer than the board
/// holds, and consists of entries that were handed in; where all of them
/// fit, all of them are kept.
pub proof fn law_best(s: Seq<Entry>)
    ensures
        ascending(best(s)),
        best(s).len() == if s.len() > MAX_ENTRIES_PER_BOARD {
            MAX_ENTRIES_PER_BOARD as int
        } else {
            s.len() as int
        },
        forall|i: int| 0 <= i < best(s).len() ==> s.contains(#[trigger] best(s)[i]),
        s.len() <= MAX_ENTRIES_PER_BOARD ==> best(s).to_multiset() == s.to_multiset(),
{
    broadcast use vstd::seq_lib::group_to_multiset_ensures;

    lemma_ranked(s);
    let r = ranked(s);
    assert forall|i: int| 0 <= i < best(s).len() implies s.contains(#[trigger] best(s)[i]) by {
        assert(best(s)[i] == r[i]);
        assert(r.contains(r[i]));
        assert(r.to_multiset().count(r[i]) > 0);
    }
    if s.len() > MAX_ENTRIES_PER_BOARD {
        let t = r.take(MAX_ENTRIES_PER_BOARD as int);
        assert forall|i: int, j: int| 0 <= i < j < t.len() implies t[i].rank() <= t[j].rank() by {
            assert(t[i] == r[i] && t[j] == r[j]);
        }
    }
}

/// The best times of one tier.
#[derive(Debug)]
pub struct LeaderBoard {
    pub entries: Vec<Entry>,
}

impl Default for LeaderBoard {
    fn default() -> (b: Self)
        ensures
            b.entries@.len() == 0,
    {
        LeaderBoard { entries: Vec::new() }
    }
}

impl Clone for LeaderBoard {
    fn clone(&self) -> (b: Self)
        ensures
            b.entries@ == self.entries@,
    {
        let mut entries: Vec<Entry> = Vec::new();
        let mut i: usize = 0;
        while i < self.entries.len()
            invariant
                i <= self.entries@.len(),
                entries@ == self.entries@.take(i as int),
            decreases self.entries@.len() - i,
        {
            entries.push(self.entries[i].clone());
            proof {
                assert(entries@ =~= self.entries@.take(i + 1));
            }
            i += 1;
        }
        proof {
            assert(self.entries@.take(i as int) =~= self.entries@);
        }
        LeaderBoard { entries }
    }
}

impl LeaderBoard {
    /// Puts the entries in order of time, fastest first, entries of equal
    /// time in the order they had, and drops all but the best.
    pub fn sort_and_trim(&mut self)
        ensures
            final(self).entries@ == best(old(self).entries@),
    {
        let n = self.entries.len();
        let mut i: usize = 0;
        while i < n
            invariant
                i <= n,
                n == old(self).entries@.len(),
                self.entries@.len() == n,
                self.entries@.take(i as int) == ranked(old(self).entries@.take(i as int)),
                self.entries@.skip(i as int) == old(self).entries@.skip(i as int),
            decreases n - i,
        {
            let ghost before = self.entries@;
            let ghost head = before.take(i as int);
            let key = rank_of(self.entries[i].time);
            let mut j: usize = i;
            while j > 0 && rank_of(self.entries[j - 1].time) > key
                invariant
                    j <= i < n,
                    self.entries@ == before,
                    before.len() == n,
                    key == before[i as int].rank(),
                    forall|k: int| j <= k < i ==> before[k].rank() > key,
                decreases j,
            {
                j -= 1;
            }
            let e = self.entries.remove(i);
            self.entries.insert(j, e);
            proof {
                let old_entries = old(self).entries@;
                assert(before[i as int] == before.skip(i as int)[0]);
                assert(e == old_entries[i as int]);
                assert forall|k: int| j <= k < head.len() implies head[k].rank() > e.rank() by {
                    assert(head[k] == before[k]);
                }
                if j > 0 {
                    assert(head[j - 1] == before[j - 1]);
                }
                lemma_placed_at(head, e, j as int);
                assert(old_entries.take(i + 1).drop_last() =~= old_entries.take(i as int));
                assert(old_entries.take(i + 1).last() == e);
                assert(self.entries@.take(i + 1) =~= head.insert(j as int, e));
                assert(self.entries@.skip(i + 1) =~= old_entries.skip(i + 1)) by {
                    assert forall|k: int| 0 <= k < n - i - 1 implies (#[trigger] self.entries@.skip(
                        i + 1,
                    )[k]) == old_entries.skip(i + 1)[k] by {
                        assert(before.skip(i as int)[k + 1] == old_entries.skip(i as int)[k + 1]);
                    }
                }
            }
            i += 1;
        }
        proof {
            assert(self.entries@.take(n as int) =~= self.entries@);
            assert(old(self).entries@.take(n as int) =~= old(self).entries@);
            lemma_ranked(old(self).entries@);
        }
        if self.entries.len() > MAX_ENTRIES_PER_BOARD {
            self.entries.truncate(MAX_ENTRIES_PER_BOARD);
        }
    }

    /// Adds a finished game and keeps the best.
    pub fn add_entry(&mut self, entry: Entry)
        ensures
            final(self).entries@ == best(old(self).entries@.push(entry)),
    {
        self.entries.push(entry);
        self.sort_and_trim();
    }

    /// Adds a game finished now by `player_name` in `time`, and keeps the
    /// best.
    pub fn add(&mut self, player_name: &str, time: u64)
        ensures
            exists|e: Entry|
                {
                    &&& e.player_name@ == player_name@
                    &&& e.time == time
                    &&& final(self).entries@ == best(old(self).entries@.push(e))
                },
    {
        let entry = Entry { player_name: player_name.to_owned(), date: local_now(), time };
        let ghost e = entry;
        self.add_entry(entry);
        assert(e.player_name@ == player_name@ && e.time == time && self.entries@ == best(
            old(self).entries@.push(e),
        ));
    }
}

/// The leaderboards of the three tiers.
#[derive(Debug)]
pub struct LeaderBoards {
    pub beginner: LeaderBoard,
    pub intermediate: LeaderBoard,
    pub expert: LeaderBoard,
}

impl Default for LeaderBoards {
    fn default() -> (b: Self)
        ensures
            b.beginner.entries@.len() == 0,
            b.intermediate.entries@.len() == 0,
            b.expert.entries@.len() == 0,
    {
        LeaderBoards {
            beginner: LeaderBoard::default(),
            intermediate: LeaderBoard::default(),
            expert: LeaderBoard::default(),
        }
    }
}

impl Clone for LeaderBoards {
    fn clone(&self) -> (b: Self)
        ensures
            forall|level: GameDifficulty| b.board(level) == self.board(level),
    {
        LeaderBoards {
            beginner: self.beginner.clone(),
            intermediate: self.intermediate.clone(),
            expert: self.expert.clone(),
        }
    }
}

impl LeaderBoards {
    /// The entries of a tier's board.
    pub open spec fn board(self, level: GameDifficulty) -> Seq<Entry> {
        match level {
            GameDifficulty::Beginner => self.beginner.entries@,
            GameDifficulty::Intermediate => self.intermediate.entries@,
            GameDifficulty::Expert => self.expert.entries@,
        }
    }

    /// A copy of the board of a tier.
    pub fn leaderboard_for_level(&self, level: GameDifficulty) -> (b: LeaderBoard)
        ensures
            b.entries@ == self.board(level),
    {
        match level {
            GameDifficulty::Beginner => self.beginner.clone(),
            GameDifficulty::Intermediate => self.intermediate.clone(),
            GameDifficulty::Expert => self.expert.clone(),
        }
    }

    /// Adds a finished game to the board of a tier and keeps the best; the
    /// other boards stay as they are.
    pub fn add_entry(&mut self, level: GameDifficulty, entry: Entry)
        ensures
            final(self).board(level) == best(old(self).board(level).push(entry)),
            forall|other: GameDifficulty|
                other != level ==> final(self).board(other) == old(self).board(other),
    {
        match level {
            GameDifficulty::Beginner => self.beginner.add_entry(entry),
            GameDifficulty::Intermediate => self.intermediate.add_entry(entry),
            GameDifficulty::Expert => self.expert.add_entry(entry),
        }
    }

    /// Adds a game finished now by `player_name` in `time` to the board of a
    /// tier and keeps the best; the other boards stay as they are.
    pub fn add(&mut self, level: GameDifficulty, player_name: &str, time: u64)
        ensures
            exists|e: Entry|
                {
                    &&& e.player_name@ == player_name@
                    &&& e.time == time
                    &&& final(self).board(level) == best(old(self).board(level).push(e))
                },
            forall|other: GameDifficulty|
                other != level ==> final(self).board(other) == old(self).board(other),
    {
        let entry = Entry { player_name: player_name.to_owned(), date: local_now(), time };
        let ghost e = entry;
        self.add_entry(level, entry);
        assert(e.player_name@ == player_name@ && e.time == time && self.board(level) == best(
            old(self).board(level).push(e),
        ));
    }
}

} // verus!
