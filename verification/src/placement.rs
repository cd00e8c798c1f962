//! Laying mines and writing numerals.

use vstd::prelude::*;
use crate::grid::Grid;
use crate::minesweeper::{Coordinate, Error, GameBoard, Square};
use crate::random::random_below;
use crate::tally::{
    count_below, lemma_count_all, lemma_count_bound, lemma_count_drop, lemma_tally_agree,
    lemma_tally_update, lemma_tally_zero,
};

verus! {

/// How many random positions are tried for one mine before the mine is laid
/// on a free square picked by its rank.
pub const DRAWS_PER_MINE: u32 = 100;

impl Grid {
    /// The position of the square with row-major index `i`.
    pub open spec fn position(self, i: int) -> Coordinate {
        Coordinate { x: (i % self.width as int) as u32, y: (i / self.width as int) as u32 }
    }

    /// A mine may be laid on square `i`: it holds none, and it is not near
    /// the position that is to be kept clear.
    pub open spec fn free(self, keep_clear: Option<Coordinate>, i: int) -> bool {
        &&& 0 <= i < self.cells.len()
        &&& !self.cells[i].mined()
        &&& (keep_clear matches Some(c) ==> !c.is_near(self.position(i)))
    }

    /// Number of squares on which a mine may be laid.
    pub open spec fn free_count(self, keep_clear: Option<Coordinate>) -> nat {
        count_below(self.cells.len(), |i: int| self.free(keep_clear, i))
    }

    /// The grid with a fresh mine on square `i`.
    pub open spec fn mine(self, i: int) -> Grid {
        Grid { cells: self.cells.update(i, Square::blank_mine()), ..self }
    }

    /// This grid comes from `before` by laying fresh mines on free squares:
    /// every other square is as it was.
    pub open spec fn laid(self, before: Grid, keep_clear: Option<Coordinate>) -> bool {
        &&& self.width == before.width
        &&& self.height == before.height
        &&& self.cells.len() == before.cells.len()
        &&& forall|i: int|
            0 <= i < self.cells.len() ==> (#[trigger] self.cells[i]) == before.cells[i] || (
            self.cells[i] == Square::blank_mine() && before.free(keep_clear, i))
    }

    /// No mine lies on the position to keep clear or next to it.
    pub open spec fn clear_around(self, keep_clear: Coordinate) -> bool {
        forall|x: int, y: int|
            self.contains(x, y) && keep_clear.is_near(Coordinate { x: x as u32, y: y as u32 })
                ==> !(#[trigger] self.at(x, y)).mined()
    }

    /// The index of a position leads back to the position.
    pub proof fn lemma_position(self, x: int, y: int)
        requires
            self.contains(x, y),
            x <= u32::MAX,
            y <= u32::MAX,
        ensures
            self.position(self.index(x, y)) == (Coordinate { x: x as u32, y: y as u32 }),
    {
        vstd::arithmetic::div_mod::lemma_fundamental_div_mod_converse(
            self.index(x, y),
            self.width as int,
            y,
            x,
        );
    }

    /// A fresh mine on a free square: one mine more, one free square fewer.
    pub proof fn lemma_mine(self, keep_clear: Option<Coordinate>, j: int)
        requires
            self.free(keep_clear, j),
        ensures
            self.mine(j).free_count(keep_clear) + 1 == self.free_count(keep_clear),
            self.mine(j).mines() == self.mines() + 1,
            self.mine(j).laid(self, keep_clear),
            self.wf() ==> self.mine(j).wf(),
    {
        let g = self.mine(j);
        lemma_tally_update(self.cells, |s: Square| s.mined(), j, Square::blank_mine());
        lemma_count_drop(
            self.cells.len(),
            |i: int| self.free(keep_clear, i),
            |i: int| g.free(keep_clear, i),
            j,
        );
    }

    /// Laying mines in two stages is laying mines.
    pub proof fn lemma_laid_twice(self, middle: Grid, before: Grid, keep_clear: Option<Coordinate>)
        requires
            self.laid(middle, keep_clear),
            middle.laid(before, keep_clear),
        ensures
            self.laid(before, keep_clear),
    {
        assert forall|i: int| 0 <= i < self.cells.len() implies (#[trigger] self.cells[i])
            == before.cells[i] || (self.cells[i] == Square::blank_mine() && before.free(
            keep_clear,
            i,
        )) by {
            assert(middle.cells[i] == before.cells[i] || (middle.cells[i] == Square::blank_mine()
                && before.free(keep_clear, i)));
        }
    }

    /// Mines laid with a position kept clear leave it and its neighbours as
    /// they were.
    pub proof fn lemma_laid_clear(self, before: Grid, keep_clear: Coordinate, x: int, y: int)
        requires
            before.wf(),
            self.laid(before, Some(keep_clear)),
            self.contains(x, y),
            x <= u32::MAX,
            y <= u32::MAX,
            keep_clear.is_near(Coordinate { x: x as u32, y: y as u32 }),
        ensures
            self.at(x, y) == before.at(x, y),
    {
        before.lemma_index_in_range(x, y);
        before.lemma_position(x, y);
        assert(self.cells[self.index(x, y)] == before.cells[self.index(x, y)] || (self.cells[self.index(
            x,
            y,
        )] == Square::blank_mine() && before.free(Some(keep_clear), self.index(x, y))));
    }

    /// On a grid without mines and with no position kept clear every square
    /// is free.
    pub proof fn lemma_all_free(self)
        requires
            self.mines() == 0,
        ensures
            self.free_count(None) == self.cells.len(),
    {
        lemma_tally_zero(self.cells, |s: Square| s.mined());
        lemma_count_all(self.cells.len(), |i: int| self.free(None, i));
    }

    /// Two grids of one size with mines on the same squares have the same
    /// mine at every position, on and off the grid.
    pub proof fn lemma_same_mine_at(self, other: Grid, x: int, y: int)
        requires
            self.wf(),
            other.wf(),
            self.width == other.width,
            self.height == other.height,
            forall|i: int|
                0 <= i < self.cells.len() ==> (#[trigger] self.cells[i]).mined()
                    == other.cells[i].mined(),
        ensures
            self.mine_at(x, y) == other.mine_at(x, y),
    {
        if self.contains(x, y) {
            self.lemma_index_in_range(x, y);
            assert(self.cells[self.index(x, y)].mined() == other.cells[self.index(x, y)].mined());
        }
    }

    /// Two grids of one size with mines on the same squares count the same
    /// mines around every position.
    pub proof fn lemma_same_mines_around(self, other: Grid, x: int, y: int)
        requires
            self.wf(),
            other.wf(),
            self.width == other.width,
            self.height == other.height,
            forall|i: int|
                0 <= i < self.cells.len() ==> (#[trigger] self.cells[i]).mined()
                    == other.cells[i].mined(),
        ensures
            self.mined_neighbors(x, y) == other.mined_neighbors(x, y),
    {
        self.lemma_same_mine_at(other, x - 1, y - 1);
        self.lemma_same_mine_at(other, x - 1, y);
        self.lemma_same_mine_at(other, x - 1, y + 1);
        self.lemma_same_mine_at(other, x, y - 1);
        self.lemma_same_mine_at(other, x, y);
        self.lemma_same_mine_at(other, x, y + 1);
        self.lemma_same_mine_at(other, x + 1, y - 1);
        self.lemma_same_mine_at(other, x + 1, y);
        self.lemma_same_mine_at(other, x + 1, y + 1);
    }
}

impl GameBoard {
    /// Whether a mine may be laid on the square with index `idx`.
    fn is_free(&self, idx: u32, keep_clear: &Option<Coordinate>) -> (r: bool)
        requires
            self.wf(),
            idx < self.squares@.len(),
        ensures
            r == self@.free(*keep_clear, idx as int),
    {
        if self.squares[idx as usize].is_mine() {
            return false;
        }
        match keep_clear {
            Some(kc) => match self.idx_to_xy(idx) {
                Ok(pos) => !kc.near(&pos),
                Err(_) => false,
            },
            None => true,
        }
    }

    /// Number of squares on which a mine may be laid.
    pub fn count_free(&self, keep_clear: &Option<Coordinate>) -> (count: u32)
        requires
            self.wf(),
        ensures
            count == self@.free_count(*keep_clear),
    {
        let ghost p = |i: int| self@.free(*keep_clear, i);
        let n: u32 = self.squares.len() as u32;
        let mut count: u32 = 0;
        let mut i: u32 = 0;
        while i < n
            invariant
                i <= n,
                n == self.squares@.len(),
                self.wf(),
                p == (|i: int| self@.free(*keep_clear, i)),
                count == count_below(i as nat, p),
                count <= i,
            decreases n - i,
        {
            if self.is_free(i, keep_clear) {
                count += 1;
            }
            i += 1;
        }
        count
    }

    /// The index of the free square that has exactly `k` free squares before
    /// it.
    pub fn nth_free(&self, keep_clear: &Option<Coordinate>, k: u32) -> (idx: u32)
        requires
            self.wf(),
            k < self@.free_count(*keep_clear),
        ensures
            self@.free(*keep_clear, idx as int),
            count_below(idx as nat, |i: int| self@.free(*keep_clear, i)) == k,
    {
        let ghost p = |i: int| self@.free(*keep_clear, i);
        let n: u32 = self.squares.len() as u32;
        let mut seen: u32 = 0;
        let mut i: u32 = 0;
        loop
            invariant
                i < n,
                n == self.squares@.len(),
                self.wf(),
                p == (|i: int| self@.free(*keep_clear, i)),
                seen == count_below(i as nat, p),
                seen <= k,
                k < count_below(n as nat, p),
            decreases n - i,
        {
            if self.is_free(i, keep_clear) {
                if seen == k {
                    return i;
                }
                seen += 1;
            }
            i += 1;
        }
    }

    /// A random position on the board.
    fn gen_random_square_coordinates(&self) -> (c: Coordinate)
        requires
            self.width > 0,
            self.height > 0,
        ensures
            self@.contains(c.x as int, c.y as int),
    {
        Coordinate { x: random_below(self.width), y: random_below(self.height) }
    }

    /// Lays a mine on `candidate` if that square is on the board, holds no
    /// mine and is not near `keep_clear`. Says whether the mine was laid.
    pub fn place_mine_at(&mut self, candidate: &Coordinate, keep_clear: &Option<Coordinate>) -> (placed:
        bool)
        requires
            old(self).wf(),
        ensures
            final(self).wf(),
            final(self).same_setup(old(self)),
            placed == (old(self)@.contains(candidate.x as int, candidate.y as int) && old(self)@.free(
                *keep_clear,
                old(self)@.index(candidate.x as int, candidate.y as int),
            )),
            final(self)@ == if placed {
                old(self)@.mine(old(self)@.index(candidate.x as int, candidate.y as int))
            } else {
                old(self)@
            },
    {
        if candidate.x >= self.width || candidate.y >= self.height {
            return false;
        }
        let idx = self.coordinate_to_idx(candidate);
        if self.is_free(idx, keep_clear) {
            self.squares.set(idx as usize, Square::default_mine());
            true
        } else {
            false
        }
    }

    /// Lays one mine on a free square chosen at random: a few random
    /// positions are tried first, and if none of them is free, a random one
    /// among the free squares is taken. Returns the square's index.
    fn place_random_mine(&mut self, keep_clear: &Option<Coordinate>) -> (idx: u32)
        requires
            old(self).wf(),
            old(self)@.free_count(*keep_clear) > 0,
        ensures
            final(self).same_setup(old(self)),
            old(self)@.free(*keep_clear, idx as int),
            final(self)@ == old(self)@.mine(idx as int),
    {
        proof {
            lemma_count_bound(
                0,
                self.squares@.len(),
                |i: int| self@.free(*keep_clear, i),
            );
            assert(self.width > 0 && self.height > 0) by (nonlinear_arith)
                requires
                    self.width as nat * self.height as nat > 0,
            ;
        }
        let mut draws: u32 = 0;
        while draws < DRAWS_PER_MINE
            invariant
                self.wf(),
                self.width > 0,
                self.height > 0,
                self@ == old(self)@,
                self.same_setup(old(self)),
            decreases DRAWS_PER_MINE - draws,
        {
            let candidate = self.gen_random_square_coordinates();
            if self.place_mine_at(&candidate, keep_clear) {
                return self.coordinate_to_idx(&candidate);
            }
            draws += 1;
        }
        let k = random_below(self.count_free(keep_clear));
        let idx = self.nth_free(keep_clear, k);
        self.squares.set(idx as usize, Square::default_mine());
        idx
    }

    /// Lays `num_mines` mines on free squares chosen at random: squares that
    /// hold no mine and, where `keep_clear` is given, are neither that
    /// position nor one of its neighbours. Fails, and changes nothing, when
    /// there are fewer free squares than mines asked for.
    pub fn populate_mines_around(&mut self, num_mines: u32, keep_clear: Option<Coordinate>) -> (r:
        Result<(), Error>)
        requires
            old(self).wf(),
        ensures
            final(self).wf(),
            final(self).width == old(self).width,
            final(self).height == old(self).height,
            num_mines > old(self).width * old(self).height ==> r is Err,
            match r {
                Ok(_) => {
                    &&& num_mines <= old(self)@.free_count(keep_clear)
                    &&& final(self).num_mines == num_mines
                    &&& final(self).is_populated
                    &&& final(self)@.laid(old(self)@, keep_clear)
                    &&& final(self)@.mines() == old(self)@.mines() + num_mines
                    &&& final(self)@.free_count(keep_clear) + num_mines == old(self)@.free_count(
                        keep_clear,
                    )
                    &&& keep_clear matches Some(c) ==> (old(self)@.clear_around(c) ==> final(self)@.clear_around(c))
                },
                Err(e) => {
                    &&& e == Error::ExcessiveMines
                    &&& num_mines > old(self)@.free_count(keep_clear)
                    &&& final(self)@ == old(self)@
                    &&& final(self).same_setup(old(self))
                },
            },
    {
        proof {
            lemma_count_bound(
                0,
                self.squares@.len(),
                |i: int| self@.free(keep_clear, i),
            );
        }
        if num_mines > self.count_free(&keep_clear) {
            return Err(Error::ExcessiveMines);
        }
        self.num_mines = num_mines;
        let mut mines_placed: u32 = 0;
        while mines_placed < num_mines
            invariant
                mines_placed <= num_mines,
                self.wf(),
                self.width == old(self).width,
                self.height == old(self).height,
                self.num_mines == num_mines,
                self.is_populated == old(self).is_populated,
                self@.laid(old(self)@, keep_clear),
                self@.mines() == old(self)@.mines() + mines_placed,
                self@.free_count(keep_clear) + mines_placed == old(self)@.free_count(keep_clear),
                num_mines <= old(self)@.free_count(keep_clear),
            decreases num_mines - mines_placed,
        {
            let ghost before = self@;
            let idx = self.place_random_mine(&keep_clear);
            proof {
                before.lemma_mine(keep_clear, idx as int);
                self@.lemma_laid_twice(before, old(self)@, keep_clear);
            }
            mines_placed += 1;
        }
        self.is_populated = true;
        proof {
            if let Some(c) = keep_clear {
                if old(self)@.clear_around(c) {
                    assert forall|x: int, y: int|
                        self@.contains(x, y) && c.is_near(
                            Coordinate { x: x as u32, y: y as u32 },
                        ) implies !(#[trigger] self@.at(x, y)).mined() by {
                        self@.lemma_laid_clear(old(self)@, c, x, y);
                        assert(!old(self)@.at(x, y).mined());
                    }
                }
            }
        }
        Ok(())
    }

    /// Lays `num_mines` mines on squares chosen at random among those that
    /// hold none.
    pub fn populate_mines(&mut self, num_mines: u32) -> (r: Result<(), Error>)
        requires
            old(self).wf(),
        ensures
            final(self).wf(),
            final(self).width == old(self).width,
            final(self).height == old(self).height,
            num_mines > old(self).width * old(self).height ==> r is Err,
            match r {
                Ok(_) => {
                    &&& num_mines <= old(self)@.free_count(None)
                    &&& final(self).num_mines == num_mines
                    &&& final(self).is_populated
                    &&& final(self)@.laid(old(self)@, None)
                    &&& final(self)@.mines() == old(self)@.mines() + num_mines
                },
                Err(e) => {
                    &&& e == Error::ExcessiveMines
                    &&& num_mines > old(self)@.free_count(None)
                    &&& final(self)@ == old(self)@
                    &&& final(self).same_setup(old(self))
                },
            },
    {
        self.populate_mines_around(num_mines, None)
    }

    /// Writes into every square the number of mines among its eight
    /// neighbours; a square at the edge has fewer neighbours.
    pub fn populate_numerals(&mut self) -> (r: Result<(), Error>)
        requires
            old(self).wf(),
        ensures
            r is Ok,
            final(self).wf(),
            final(self).same_setup(old(self)),
            final(self)@.numerals_of(old(self)@),
            final(self)@.mines() == old(self)@.mines(),
            final(self)@.numbered(),
            forall|x: int, y: int|
                final(self)@.contains(x, y) && !(#[trigger] final(self)@.at(x, y)).mined() ==> final(self)@.at(x, y).numeral == final(self)@.mined_neighbors(x, y),
    {
        let n: u32 = self.squares.len() as u32;
        let mut i: u32 = 0;
        while i < n
            invariant
                i <= n,
                n == self.squares@.len(),
                self.wf(),
                self.same_setup(old(self)),
                old(self).wf(),
                forall|j: int|
                    0 <= j < n ==> (#[trigger] self.squares@[j]) == (Square {
                        numeral: self.squares@[j].numeral,
                        ..old(self).squares@[j]
                    }),
                forall|j: int|
                    0 <= j < i ==> (#[trigger] self.squares@[j]).numeral == old(self)@.mined_neighbors(
                        old(self)@.position(j).x as int,
                        old(self)@.position(j).y as int,
                    ),
                forall|j: int| i <= j < n ==> (#[trigger] self.squares@[j]) == old(self).squares@[j],
            decreases n - i,
        {
            let pos = match self.idx_to_xy(i) {
                Ok(pos) => pos,
                Err(_) => Coordinate { x: 0, y: 0 },
            };
            let count = match self.mined_neighbor_count(pos.x, pos.y) {
                Ok(count) => count,
                Err(_) => 0,
            };
            proof {
                self@.lemma_same_mines_around(old(self)@, pos.x as int, pos.y as int);
            }
            let sq = self.squares[i as usize];
            self.squares.set(i as usize, Square { numeral: count, ..sq });
            i += 1;
        }
        proof {
            assert forall|x: int, y: int| old(self)@.contains(x, y) implies (#[trigger] self@.at(x, y))
                == (Square {
                numeral: old(self)@.mined_neighbors(x, y) as u32,
                ..old(self)@.at(x, y)
            }) by {
                old(self)@.lemma_index_in_range(x, y);
                old(self)@.lemma_position(x, y);
            }
            assert forall|x: int, y: int| self@.contains(x, y) implies (#[trigger] self@.at(
                x,
                y,
            )).numeral == self@.mined_neighbors(x, y) by {
                self@.lemma_same_mines_around(old(self)@, x, y);
            }
            lemma_tally_same_mines(self@, old(self)@);
        }
        Ok(())
    }

    /// A board with `num_mines` mines laid at random, away from `keep_clear`
    /// where that is given, and its numerals written.
    fn build_populated(width: u32, height: u32, num_mines: u32, keep_clear: Option<Coordinate>) -> (r:
        Result<GameBoard, Error>)
        requires
            width * height <= u32::MAX,
        ensures
            match r {
                Ok(gb) => {
                    &&& num_mines <= Grid::blank(width as nat, height as nat).free_count(keep_clear)
                    &&& gb.wf()
                    &&& gb.width == width
                    &&& gb.height == height
                    &&& gb.num_mines == num_mines
                    &&& gb.is_populated
                    &&& gb@.mines() == num_mines
                    &&& keep_clear matches Some(c) ==> gb@.clear_around(c)
                    &&& gb@.in_play()
                    &&& forall|i: int|
                        0 <= i < gb.squares@.len() ==> !(#[trigger] gb.squares@[i]).is_revealed
                            && !gb.squares@[i].is_flagged
                },
                Err(e) => {
                    &&& e == Error::ExcessiveMines
                    &&& num_mines > Grid::blank(width as nat, height as nat).free_count(keep_clear)
                },
            },
    {
        let mut gb = Self::new(width, height);
        proof {
            lemma_no_mines(width as nat, height as nat);
            if let Some(c) = keep_clear {
                assert forall|x: int, y: int| gb@.contains(x, y) implies !(#[trigger] gb@.at(
                    x,
                    y,
                )).mined() by {
                    gb@.lemma_index_in_range(x, y);
                }
            }
        }
        let ghost fresh = gb@;
        match gb.populate_mines_around(num_mines, keep_clear) {
            Ok(_) => {},
            Err(e) => {
                return Err(e);
            },
        }
        let ghost mined = gb@;
        let _ = gb.populate_numerals();
        proof {
            assert forall|i: int| 0 <= i < gb.squares@.len() implies !(#[trigger] gb.squares@[i]).is_revealed
                && !gb.squares@[i].is_flagged by {
                lemma_numbered_square(mined, gb@, i);
                assert(mined.cells[i] == fresh.cells[i] || mined.cells[i] == Square::blank_mine());
            }
            if let Some(c) = keep_clear {
                assert forall|x: int, y: int|
                    gb@.contains(x, y) && c.is_near(
                        Coordinate { x: x as u32, y: y as u32 },
                    ) implies !(#[trigger] gb@.at(x, y)).mined() by {
                    assert(!mined.at(x, y).mined());
                }
            }
        }
        Ok(gb)
    }

    /// A board with `num_mines` mines laid at random and its numerals
    /// written.
    pub fn new_populated(width: u32, height: u32, num_mines: u32) -> (r: Result<GameBoard, Error>)
        requires
            width * height <= u32::MAX,
        ensures
            match r {
                Ok(gb) => {
                    &&& num_mines <= width * height
                    &&& gb.wf()
                    &&& gb.width == width
                    &&& gb.height == height
                    &&& gb.num_mines == num_mines
                    &&& gb.is_populated
                    &&& gb@.mines() == num_mines
                    &&& gb@.in_play()
                    &&& forall|i: int|
                        0 <= i < gb.squares@.len() ==> !(#[trigger] gb.squares@[i]).is_revealed
                            && !gb.squares@[i].is_flagged
                },
                Err(e) => e == Error::ExcessiveMines && num_mines > width * height,
            },
    {
        proof {
            lemma_no_mines(width as nat, height as nat);
            Grid::blank(width as nat, height as nat).lemma_all_free();
        }
        Self::build_populated(width, height, num_mines, None)
    }

    /// A board with `num_mines` mines laid at random, none of them on
    /// `keep_clear` or next to it, and its numerals written.
    pub fn new_populated_around(width: u32, height: u32, num_mines: u32, keep_clear: Coordinate) -> (r:
        Result<GameBoard, Error>)
        requires
            width * height <= u32::MAX,
        ensures
            num_mines > width * height ==> r is Err,
            match r {
                Ok(gb) => {
                    &&& num_mines <= Grid::blank(width as nat, height as nat).free_count(
                        Some(keep_clear),
                    )
                    &&& gb.wf()
                    &&& gb.width == width
                    &&& gb.height == height
                    &&& gb.num_mines == num_mines
                    &&& gb.is_populated
                    &&& gb@.mines() == num_mines
                    &&& gb@.clear_around(keep_clear)
                    &&& gb@.in_play()
                    &&& forall|i: int|
                        0 <= i < gb.squares@.len() ==> !(#[trigger] gb.squares@[i]).is_revealed
                            && !gb.squares@[i].is_flagged
                },
                Err(e) => {
                    &&& e == Error::ExcessiveMines
                    &&& num_mines > Grid::blank(width as nat, height as nat).free_count(
                        Some(keep_clear),
                    )
                },
            },
    {
        proof {
            lemma_count_bound(
                0,
                (width as nat * height as nat) as nat,
                |i: int| Grid::blank(width as nat, height as nat).free(Some(keep_clear), i),
            );
        }
        Self::build_populated(width, height, num_mines, Some(keep_clear))
    }
}

/// A blank grid holds no mine.
proof fn lemma_no_mines(width: nat, height: nat)
    ensures
        Grid::blank(width, height).mines() == 0,
{
    lemma_tally_zero(Grid::blank(width, height).cells, |s: Square| s.mined());
}

/// Writing numerals changes nothing but the numeral of a square.
proof fn lemma_numbered_square(before: Grid, after: Grid, i: int)
    requires
        before.wf(),
        after.wf(),
        before.width == after.width,
        before.height == after.height,
        before.width <= u32::MAX,
        before.height <= u32::MAX,
        0 <= i < before.cells.len(),
        after.numerals_of(before),
    ensures
        after.cells[i] == (Square { numeral: after.cells[i].numeral, ..before.cells[i] }),
{
    let w = before.width as int;
    assert(w > 0) by (nonlinear_arith)
        requires
            0 <= i < w * before.height,
            w >= 0,
    ;
    vstd::arithmetic::div_mod::lemma_fundamental_div_mod(i, w);
    vstd::arithmetic::div_mod::lemma_mod_bound(i, w);
    let x = i % w;
    let y = i / w;
    assert(0 <= y < before.height) by (nonlinear_arith)
        requires
            0 <= i < w * before.height,
            w > 0,
            i == w * y + x,
            0 <= x < w,
    ;
    assert(y * w == w * y) by (nonlinear_arith);
    assert(before.index(x, y) == i);
    assert(after.at(x, y) == (Square {
        numeral: before.mined_neighbors(x, y) as u32,
        ..before.at(x, y)
    }));
}

/// Grids whose squares differ in nothing but numerals hold the same number of
/// mines.
proof fn lemma_tally_same_mines(after: Grid, before: Grid)
    requires
        before.wf(),
        after.wf(),
        before.width == after.width,
        before.height == after.height,
        before.width <= u32::MAX,
        before.height <= u32::MAX,
        after.numerals_of(before),
    ensures
        after.mines() == before.mines(),
{
    assert forall|i: int| 0 <= i < after.cells.len() implies (|s: Square| s.mined())(
        #[trigger] after.cells[i],
    ) == (|s: Square| s.mined())(before.cells[i]) by {
        lemma_numbered_square(before, after, i);
    }
    lemma_tally_agree(
        after.cells,
        before.cells,
        |s: Square| s.mined(),
        |s: Square| s.mined(),
    );
}

} // verus!
