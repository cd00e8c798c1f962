//! A minesweeper engine with machine-checked contracts.

pub mod clock;
pub mod endgame;
pub mod enums;
pub mod grid;
pub mod leader;
pub mod minesweeper;
pub mod outcome;
pub mod placement;
pub mod play;
pub mod plays;
pub mod queries;
pub mod random;
pub mod reach;
pub mod session;
pub mod spread;
pub mod state;
pub mod tally;
