//! Small enumerations shared by the game and its front end.

use vstd::prelude::*;

verus! {

/// Colour scheme of the front end.
#[derive(Debug, Eq, PartialEq, Structural, Clone, Copy)]
pub enum VisualTheme {
    Light,
    Dark,
}

impl VisualTheme {
    /// The name under which the theme is shown and stored.
    pub open spec fn name(self) -> Seq<char> {
        match self {
            VisualTheme::Dark => "Dark"@,
            VisualTheme::Light => "Light"@,
        }
    }

    /// The theme's name.
    pub fn as_str(&self) -> (s: &'static str)
        ensures
            s@ == self.name(),
    {
        match *self {
            VisualTheme::Dark => "Dark",
            VisualTheme::Light => "Light",
        }
    }
}

/// Where a game stands between its first click and its end.
#[derive(Eq, PartialEq, Structural, Debug, Clone, Copy)]
pub enum GameState {
    NotStarted,
    Playing,
    EndedLoss,
    EndedWin,
    Paused,
}

impl GameState {
    /// True once the game has been won or lost.
    pub fn game_ended(&self) -> (r: bool)
        ensures
            r == (*self == GameState::EndedLoss || *self == GameState::EndedWin),
    {
        *self == GameState::EndedLoss || *self == GameState::EndedWin
    }
}

/// The three preset board sizes.
#[derive(Eq, PartialEq, Structural, Debug, Clone, Copy)]
pub enum GameDifficulty {
    Beginner,
    Intermediate,
    Expert,
}

impl GameDifficulty {
    /// The name under which the tier is shown and stored.
    pub open spec fn name(self) -> Seq<char> {
        match self {
            GameDifficulty::Beginner => "Beginner"@,
            GameDifficulty::Intermediate => "Intermediate"@,
            GameDifficulty::Expert => "Expert"@,
        }
    }

    /// The tier's name.
    pub fn as_str(&self) -> (s: &'static str)
        ensures
            s@ == self.name(),
    {
        match *self {
            GameDifficulty::Beginner => "Beginner",
            GameDifficulty::Intermediate => "Intermediate",
            GameDifficulty::Expert => "Expert",
        }
    }
}

} // verus!
