//! The board engine: squares, coordinates, play results and the game board.

use vstd::prelude::*;
use crate::grid::{block_count, lemma_neighbor_count, off_centre, Grid};
use crate::tally::copy_of;

verus! {

/// What can go wrong when a board is set up or played on.
#[derive(Debug, Clone, Copy, PartialEq, Eq, Structural)]
pub enum Error {
    ExcessiveMines,
    InvalidCoordinates,
    IndexOutOfBounds,
    InvalidCascade,
    UnexpectedResult,
}

/// Whether a square holds a mine.
#[derive(Debug, Copy, Clone, PartialEq, Eq, Structural)]
pub enum SquareType {
    Empty,
    Mine,
}

/// One square of the board.
#[derive(Debug, Copy, Clone, PartialEq, Eq, Structural)]
pub struct Square {
    pub is_revealed: bool,
    pub is_flagged: bool,
    pub square_type: SquareType,
    pub numeral: u32,
}

impl Default for Square {
    /// A blank square: empty, hidden, unflagged, numeral zero.
    fn default() -> (s: Self)
        ensures
            s == Square::blank(),
    {
        Square { is_revealed: false, is_flagged: false, numeral: 0, square_type: SquareType::Empty }
    }
}

impl Square {
    /// The blank square every board starts from.
    pub open spec fn blank() -> Square {
        Square { is_revealed: false, is_flagged: false, numeral: 0, square_type: SquareType::Empty }
    }

    /// A hidden, unflagged mine.
    pub open spec fn blank_mine() -> Square {
        Square { is_revealed: false, is_flagged: false, numeral: 0, square_type: SquareType::Mine }
    }

    /// The square holds a mine.
    pub open spec fn mined(self) -> bool {
        self.square_type == SquareType::Mine
    }

    /// The square with its revealed bit set.
    pub open spec fn shown(self) -> Square {
        Square { is_revealed: true, ..self }
    }

    /// A hidden, unflagged mine with numeral zero.
    pub fn default_mine() -> (s: Self)
        ensures
            s == Square::blank_mine(),
    {
        Square { is_revealed: false, is_flagged: false, numeral: 0, square_type: SquareType::Mine }
    }

    /// Whether the square holds a mine.
    pub fn is_mine(&self) -> (r: bool)
        ensures
            r == self.mined(),
    {
        self.square_type == SquareType::Mine
    }

    /// What the square shows to the player: a flag hides everything else,
    /// then comes the cover of a hidden square, then the mine, then the
    /// numeral if it is not zero.
    pub open spec fn shows(self) -> SquareFace {
        if self.is_flagged {
            SquareFace::Flag
        } else if !self.is_revealed {
            SquareFace::Hidden
        } else if self.mined() {
            SquareFace::Mine
        } else if self.numeral > 0 {
            SquareFace::Numeral(self.numeral)
        } else {
            SquareFace::Blank
        }
    }

    /// What the square shows to the player.
    pub fn face(&self) -> (f: SquareFace)
        ensures
            f == self.shows(),
    {
        if self.is_flagged {
            SquareFace::Flag
        } else if !self.is_revealed {
            SquareFace::Hidden
        } else if self.is_mine() {
            SquareFace::Mine
        } else if self.numeral > 0 {
            SquareFace::Numeral(self.numeral)
        } else {
            SquareFace::Blank
        }
    }
}

/// The five things a square can show.
#[derive(Debug, Copy, Clone, PartialEq, Eq, Structural)]
pub enum SquareFace {
    Flag,
    Hidden,
    Mine,
    Numeral(u32),
    Blank,
}

/// A position on the board, zero-based.
#[derive(Debug, PartialEq, Eq, Structural, Clone, Copy)]
pub struct Coordinate {
    pub x: u32,
    pub y: u32,
}

impl Default for Coordinate {
    fn default() -> (c: Self)
        ensures
            c == (Coordinate { x: 0, y: 0 }),
    {
        Coordinate { x: 0, y: 0 }
    }
}

impl From<(u32, u32)> for Coordinate {
    fn from(xy: (u32, u32)) -> (c: Self) {
        Coordinate { x: xy.0, y: xy.1 }
    }
}

impl vstd::std_specs::convert::FromSpecImpl<(u32, u32)> for Coordinate {
    open spec fn obeys_from_spec() -> bool {
        true
    }

    open spec fn from_spec(xy: (u32, u32)) -> Self {
        Coordinate { x: xy.0, y: xy.1 }
    }
}

impl Coordinate {
    /// Square of the Euclidean distance between two positions.
    pub open spec fn distance_squared(self, other: Coordinate) -> int {
        (self.x - other.x) * (self.x - other.x) + (self.y - other.y) * (self.y - other.y)
    }

    /// The two positions lie at distance 1.5 or less.
    pub open spec fn is_near(self, other: Coordinate) -> bool {
        4 * self.distance_squared(other) <= 9
    }

    /// Near means: the same square or one of its eight neighbours.
    pub proof fn lemma_near_is_neighbourhood(self, other: Coordinate)
        ensures
            self.is_near(other) <==> (-1 <= self.x - other.x <= 1 && -1 <= self.y - other.y <= 1),
    {
        let dx = self.x - other.x;
        let dy = self.y - other.y;
        assert(dx * dx >= 0 && dy * dy >= 0) by (nonlinear_arith);
        assert((dx >= 2 || dx <= -2) ==> dx * dx >= 4) by (nonlinear_arith);
        assert((dy >= 2 || dy <= -2) ==> dy * dy >= 4) by (nonlinear_arith);
        assert(-1 <= dx <= 1 ==> dx * dx <= 1) by (nonlinear_arith);
        assert(-1 <= dy <= 1 ==> dy * dy <= 1) by (nonlinear_arith);
    }

    /// Whether the position is (x, y).
    pub fn matches(&self, x: u32, y: u32) -> (r: bool)
        ensures
            r == (self.x == x && self.y == y),
    {
        self.x == x && self.y == y
    }

    /// Whether `coord` lies at distance 1.5 or less: on this square or on one
    /// of its eight neighbours.
    pub fn near(&self, coord: &Coordinate) -> (r: bool)
        ensures
            r == self.is_near(*coord),
            r == (-1 <= self.x - coord.x <= 1 && -1 <= self.y - coord.y <= 1),
    {
        proof {
            self.lemma_near_is_neighbourhood(*coord);
        }
        let dx: u32 = if self.x >= coord.x {
            self.x - coord.x
        } else {
            coord.x - self.x
        };
        let dy: u32 = if self.y >= coord.y {
            self.y - coord.y
        } else {
            coord.y - self.y
        };
        dx <= 1 && dy <= 1
    }
}

/// The kinds of move a player can make on a square.
#[derive(Debug, Clone, Copy, PartialEq, Eq, Structural)]
pub enum RevealType {
    Reveal,
    RevealChord,
    Chord,
    Flag,
}

impl Default for RevealType {
    fn default() -> (t: Self)
        ensures
            t == RevealType::Reveal,
    {
        RevealType::Reveal
    }
}

/// What one move did to the board.
#[derive(Debug, PartialEq, Eq)]
pub enum PlayResult {
    Flagged(bool),
    Explosion(Coordinate),
    NoChange,
    Revealed(Coordinate),
    CascadedReveal(Vec<PlayResult>),
}

/// The mathematical value of a [`PlayResult`]: the same tree over sequences.
pub ghost enum Outcome {
    Flagged(bool),
    Explosion(Coordinate),
    NoChange,
    Revealed(Coordinate),
    Cascade(Seq<Outcome>),
}

impl View for PlayResult {
    type V = Outcome;

    open spec fn view(&self) -> Outcome {
        outcome_of(*self)
    }
}

/// The tree that a result stands for.
pub open spec fn outcome_of(r: PlayResult) -> Outcome
    decreases r, 0nat,
{
    match r {
        PlayResult::Flagged(b) => Outcome::Flagged(b),
        PlayResult::Explosion(c) => Outcome::Explosion(c),
        PlayResult::NoChange => Outcome::NoChange,
        PlayResult::Revealed(c) => Outcome::Revealed(c),
        PlayResult::CascadedReveal(v) => Outcome::Cascade(outcomes_upto(v@, v@.len())),
    }
}

/// The trees of the first `n` results of `v`, in order.
pub open spec fn outcomes_upto(v: Seq<PlayResult>, n: nat) -> Seq<Outcome>
    decreases v, n,
{
    if n == 0 || n > v.len() {
        Seq::empty()
    } else {
        outcomes_upto(v, (n - 1) as nat).push(outcome_of(v[n - 1]))
    }
}

/// The views of a sequence of results, in order.
pub open spec fn outcomes(v: Seq<PlayResult>) -> Seq<Outcome> {
    Seq::new(v.len(), |i: int| v[i]@)
}

/// `outcomes_upto` maps the results one by one.
pub proof fn lemma_outcomes_upto(v: Seq<PlayResult>, n: nat)
    requires
        n <= v.len(),
    ensures
        outcomes_upto(v, n).len() == n,
        forall|i: int| 0 <= i < n ==> (#[trigger] outcomes_upto(v, n)[i]) == v[i]@,
    decreases n,
{
    if n > 0 {
        lemma_outcomes_upto(v, (n - 1) as nat);
    }
}

/// The view of a cascade is the cascade of the views of its parts.
pub proof fn lemma_cascade_view(v: Vec<PlayResult>)
    ensures
        PlayResult::CascadedReveal(v)@ == Outcome::Cascade(outcomes(v@)),
{
    lemma_outcomes_upto(v@, v@.len());
    assert(outcomes_upto(v@, v@.len()) =~= outcomes(v@));
}

/// A minesweeper board: its size, its squares row by row, and whether mines
/// have been laid.
#[derive(Debug)]
pub struct GameBoard {
    pub width: u32,
    pub height: u32,
    pub num_mines: u32,
    pub squares: Vec<Square>,
    pub is_populated: bool,
}

impl Clone for GameBoard {
    fn clone(&self) -> (b: Self)
        ensures
            b@ == self@,
            b.same_setup(self),
    {
        GameBoard {
            width: self.width,
            height: self.height,
            num_mines: self.num_mines,
            squares: copy_of(&self.squares),
            is_populated: self.is_populated,
        }
    }
}

impl View for GameBoard {
    type V = Grid;

    open spec fn view(&self) -> Grid {
        Grid { width: self.width as nat, height: self.height as nat, cells: self.squares@ }
    }
}

impl GameBoard {
    /// The board holds one square for each position, and their number fits
    /// the index type.
    pub open spec fn wf(&self) -> bool {
        &&& self@.wf()
        &&& self.squares@.len() <= u32::MAX
    }

    /// Same size, mine count and population mark as `other`.
    pub open spec fn same_setup(&self, other: &GameBoard) -> bool {
        &&& self.width == other.width
        &&& self.height == other.height
        &&& self.num_mines == other.num_mines
        &&& self.is_populated == other.is_populated
    }

    /// Whether the board is well formed.
    pub fn is_valid(&self) -> (r: bool)
        ensures
            r == self.wf(),
    {
        assert(self.width as int * self.height as int <= 0xffff_ffff * 0xffff_ffff)
            by (nonlinear_arith)
            requires
                0 <= self.width <= 0xffff_ffff,
                0 <= self.height <= 0xffff_ffff,
        ;
        let area: u64 = (self.width as u64) * (self.height as u64);
        area <= u32::MAX as u64 && self.squares.len() as u64 == area
    }

    /// A board of blank squares, without mines.
    pub fn new(width: u32, height: u32) -> (gb: Self)
        requires
            width * height <= u32::MAX,
        ensures
            gb.wf(),
            gb.width == width,
            gb.height == height,
            gb.num_mines == 0,
            !gb.is_populated,
            gb@ == Grid::blank(width as nat, height as nat),
    {
        let gb = GameBoard {
            width,
            height,
            num_mines: 0,
            squares: blank_squares(width * height),
            is_populated: false,
        };
        assert(gb@.cells =~= Grid::blank(width as nat, height as nat).cells);
        gb
    }

    /// Puts a blank square at every position. Size, mine count and
    /// population mark stay.
    pub fn reset(&mut self)
        requires
            old(self).width * old(self).height <= u32::MAX,
        ensures
            final(self).wf(),
            final(self).same_setup(old(self)),
            final(self)@ == Grid::blank(old(self).width as nat, old(self).height as nat),
    {
        self.squares = blank_squares(self.width * self.height);
        assert(self@.cells =~= Grid::blank(self.width as nat, self.height as nat).cells);
    }

    /// Row-major index of the square at (x, y).
    pub(crate) fn xy_to_idx(&self, x: u32, y: u32) -> (idx: u32)
        requires
            self.wf(),
            self@.contains(x as int, y as int),
        ensures
            idx == self@.index(x as int, y as int),
            idx < self.squares@.len(),
    {
        proof {
            self@.lemma_index_in_range(x as int, y as int);
        }
        y * self.width + x
    }

    /// Row-major index of the square at `coord`.
    pub(crate) fn coordinate_to_idx(&self, coord: &Coordinate) -> (idx: u32)
        requires
            self.wf(),
            self@.contains(coord.x as int, coord.y as int),
        ensures
            idx == self@.index(coord.x as int, coord.y as int),
            idx < self.squares@.len(),
    {
        self.xy_to_idx(coord.x, coord.y)
    }

    /// The position of the square with row-major index `idx`.
    pub fn idx_to_xy(&self, idx: u32) -> (r: Result<Coordinate, Error>)
        requires
            self.wf(),
        ensures
            match r {
                Ok(c) => {
                    &&& idx < self.squares@.len()
                    &&& self@.contains(c.x as int, c.y as int)
                    &&& self@.index(c.x as int, c.y as int) == idx
                    &&& c.x == idx as int % self.width as int
                    &&& c.y == idx as int / self.width as int
                },
                Err(e) => e == Error::IndexOutOfBounds && idx >= self.squares@.len(),
            },
    {
        if idx as usize >= self.squares.len() {
            return Err(Error::IndexOutOfBounds);
        }
        proof {
            let w = self.width as int;
            let h = self.height as int;
            let i = idx as int;
            assert(w > 0) by (nonlinear_arith)
                requires
                    0 <= i < w * h,
                    w >= 0,
            ;
            assert(i == w * (i / w) + i % w) by {
                vstd::arithmetic::div_mod::lemma_fundamental_div_mod(i, w);
            }
            assert(0 <= i % w < w) by {
                vstd::arithmetic::div_mod::lemma_mod_bound(i, w);
            }
            assert(0 <= i / w < h) by (nonlinear_arith)
                requires
                    0 <= i < w * h,
                    w > 0,
                    i == w * (i / w) + i % w,
                    0 <= i % w < w,
            ;
            assert((i / w) * w == w * (i / w)) by (nonlinear_arith);
        }
        Ok(Coordinate { x: idx % self.width, y: idx / self.width })
    }

    /// The square with row-major index `idx`.
    pub(crate) fn get_square_by_idx(&self, idx: u32) -> (r: Result<Square, Error>)
        ensures
            match r {
                Ok(sq) => idx < self.squares@.len() && sq == self.squares@[idx as int],
                Err(e) => e == Error::InvalidCoordinates && idx >= self.squares@.len(),
            },
    {
        if idx as usize >= self.squares.len() {
            Err(Error::InvalidCoordinates)
        } else {
            Ok(self.squares[idx as usize])
        }
    }

    /// The square at (x, y).
    pub fn get_square(&self, x: u32, y: u32) -> (r: Result<Square, Error>)
        requires
            self.wf(),
        ensures
            match r {
                Ok(sq) => self@.contains(x as int, y as int) && sq == self@.at(x as int, y as int),
                Err(e) => e == Error::InvalidCoordinates && !self@.contains(x as int, y as int),
            },
    {
        if x >= self.width || y >= self.height {
            Err(Error::InvalidCoordinates)
        } else {
            self.get_square_by_idx(self.xy_to_idx(x, y))
        }
    }

    /// The square at `coord`.
    pub fn get_square_by_coordinate(&self, coord: &Coordinate) -> (r: Result<Square, Error>)
        requires
            self.wf(),
        ensures
            match r {
                Ok(sq) => self@.contains(coord.x as int, coord.y as int) && sq == self@.at(
                    coord.x as int,
                    coord.y as int,
                ),
                Err(e) => e == Error::InvalidCoordinates && !self@.contains(
                    coord.x as int,
                    coord.y as int,
                ),
            },
    {
        self.get_square(coord.x, coord.y)
    }

    /// Whether a mine lies at (x, y); positions off the board hold none.
    pub(crate) fn is_mine_protected(&self, x: i64, y: i64) -> (r: bool)
        requires
            self.wf(),
        ensures
            r == self@.mine_at(x as int, y as int),
    {
        if x < 0 || y < 0 || x >= self.width as i64 || y >= self.height as i64 {
            return false;
        }
        match self.get_square(x as u32, y as u32) {
            Ok(sqr) => sqr.is_mine(),
            _ => false,
        }
    }

    /// Whether a flag stands at (x, y); positions off the board hold none.
    pub(crate) fn is_flagged_protected(&self, x: i64, y: i64) -> (r: bool)
        requires
            self.wf(),
        ensures
            r == self@.flag_at(x as int, y as int),
    {
        if x < 0 || y < 0 || x >= self.width as i64 || y >= self.height as i64 {
            return false;
        }
        match self.get_square(x as u32, y as u32) {
            Ok(sqr) => sqr.is_flagged,
            _ => false,
        }
    }

    /// Number of the eight neighbours of the board's position (x, y) that
    /// hold a flag, where `flags` is set, or a mine, where it is not.
    fn neighbor_count(&self, x: u32, y: u32, flags: bool) -> (count: u32)
        requires
            self.wf(),
            self@.contains(x as int, y as int),
        ensures
            count == if flags {
                self@.flagged_neighbors(x as int, y as int)
            } else {
                self@.mined_neighbors(x as int, y as int)
            },
    {
        let ghost marked = |a: int, b: int|
            if flags {
                self@.flag_at(a, b)
            } else {
                self@.mine_at(a, b)
            };
        let ghost f = off_centre(marked, x as int, y as int);
        let mut count: u32 = 0;
        let mut k: i64 = 0;
        while k < 9
            invariant
                0 <= k <= 9,
                self.wf(),
                forall|a: int, b: int|
                    #[trigger] marked(a, b) == if flags {
                        self@.flag_at(a, b)
                    } else {
                        self@.mine_at(a, b)
                    },
                f == off_centre(marked, x as int, y as int),
                count == block_count(f, x as int, y as int, k as nat),
                count <= k,
            decreases 9 - k,
        {
            let dx: i64 = k % 3 - 1;
            let dy: i64 = k / 3 - 1;
            if k != 4 {
                let hit = if flags {
                    self.is_flagged_protected(x as i64 + dx, y as i64 + dy)
                } else {
                    self.is_mine_protected(x as i64 + dx, y as i64 + dy)
                };
                if hit {
                    count += 1;
                }
            }
            k += 1;
        }
        proof {
            lemma_neighbor_count(marked, x as int, y as int);
        }
        count
    }

    /// Number of flags among the eight neighbours of (x, y); neighbours off
    /// the board count for nothing.
    pub fn flagged_neighbor_count(&self, x: u32, y: u32) -> (r: Result<u32, Error>)
        requires
            self.wf(),
        ensures
            match r {
                Ok(n) => self@.contains(x as int, y as int) && n == self@.flagged_neighbors(
                    x as int,
                    y as int,
                ),
                Err(e) => e == Error::InvalidCoordinates && !self@.contains(x as int, y as int),
            },
    {
        if x >= self.width || y >= self.height {
            Err(Error::InvalidCoordinates)
        } else {
            Ok(self.neighbor_count(x, y, true))
        }
    }

    /// Number of mines among the eight neighbours of (x, y); neighbours off
    /// the board count for nothing.
    pub fn mined_neighbor_count(&self, x: u32, y: u32) -> (r: Result<u32, Error>)
        requires
            self.wf(),
        ensures
            match r {
                Ok(n) => self@.contains(x as int, y as int) && n == self@.mined_neighbors(
                    x as int,
                    y as int,
                ),
                Err(e) => e == Error::InvalidCoordinates && !self@.contains(x as int, y as int),
            },
    {
        if x >= self.width || y >= self.height {
            Err(Error::InvalidCoordinates)
        } else {
            Ok(self.neighbor_count(x, y, false))
        }
    }
}

/// `n` blank squares.
fn blank_squares(n: u32) -> (squares: Vec<Square>)
    ensures
        squares@.len() == n,
        forall|i: int| 0 <= i < n ==> squares@[i] == Square::blank(),
{
    let mut squares: Vec<Square> = Vec::new();
    let mut i: u32 = 0;
    while i < n
        invariant
            i <= n,
            squares@.len() == i,
            forall|j: int| 0 <= j < i ==> squares@[j] == Square::blank(),
        decreases n - i,
    {
        squares.push(Square::default());
        i += 1;
    }
    squares
}

} // verus!
