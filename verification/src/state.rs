//! The settings of a game and the options of the front end.

use vstd::prelude::*;
use crate::enums::{GameDifficulty, VisualTheme};

verus! {

pub const DEFAULT_BEGINNER_WIDTH: u32 = 9;

pub const DEFAULT_BEGINNER_HEIGHT: u32 = 9;

pub const DEFAULT_BEGINNER_NUM_MINES: u32 = 10;

pub const DEFAULT_INTERMEDIATE_WIDTH: u32 = 16;

pub const DEFAULT_INTERMEDIATE_HEIGHT: u32 = 16;

pub const DEFAULT_INTERMEDIATE_NUM_MINES: u32 = 40;

pub const DEFAULT_EXPERT_WIDTH: u32 = 30;

pub const DEFAULT_EXPERT_HEIGHT: u32 = 16;

pub const DEFAULT_EXPERT_NUM_MINES: u32 = 99;

/// Size and mine count of a board, and whether numerals are written on it.
#[derive(Debug, Clone, Copy, PartialEq, Eq, Structural)]
pub struct GameSettings {
    pub width: u32,
    pub height: u32,
    pub num_mines: u32,
    pub use_numerals: bool,
}

impl GameSettings {
    /// The settings of a tier.
    pub open spec fn preset(difficulty: GameDifficulty) -> GameSettings {
        match difficulty {
            GameDifficulty::Beginner => GameSettings {
                width: DEFAULT_BEGINNER_WIDTH,
                height: DEFAULT_BEGINNER_HEIGHT,
                num_mines: DEFAULT_BEGINNER_NUM_MINES,
                use_numerals: true,
            },
            GameDifficulty::Intermediate => GameSettings {
                width: DEFAULT_INTERMEDIATE_WIDTH,
                height: DEFAULT_INTERMEDIATE_HEIGHT,
                num_mines: DEFAULT_INTERMEDIATE_NUM_MINES,
                use_numerals: true,
            },
            GameDifficulty::Expert => GameSettings {
                width: DEFAULT_EXPERT_WIDTH,
                height: DEFAULT_EXPERT_HEIGHT,
                num_mines: DEFAULT_EXPERT_NUM_MINES,
                use_numerals: true,
            },
        }
    }

    /// A first click can always be kept clear: the board has room for the
    /// mines outside any 3x3 block.
    pub open spec fn playable(self) -> bool {
        &&& self.width >= 1
        &&& self.height >= 1
        &&& self.width * self.height <= u32::MAX
        &&& self.num_mines + 9 <= self.width * self.height
    }

    /// The settings of the beginner's tier.
    pub fn beginner() -> (s: Self)
        ensures
            s == GameSettings::preset(GameDifficulty::Beginner),
            s.playable(),
    {
        GameSettings {
            width: DEFAULT_BEGINNER_WIDTH,
            height: DEFAULT_BEGINNER_HEIGHT,
            num_mines: DEFAULT_BEGINNER_NUM_MINES,
            use_numerals: true,
        }
    }

    /// The settings of the intermediate tier.
    pub fn intermediate() -> (s: Self)
        ensures
            s == GameSettings::preset(GameDifficulty::Intermediate),
            s.playable(),
    {
        GameSettings {
            width: DEFAULT_INTERMEDIATE_WIDTH,
            height: DEFAULT_INTERMEDIATE_HEIGHT,
            num_mines: DEFAULT_INTERMEDIATE_NUM_MINES,
            use_numerals: true,
        }
    }

    /// The settings of the expert's tier.
    pub fn expert() -> (s: Self)
        ensures
            s == GameSettings::preset(GameDifficulty::Expert),
            s.playable(),
    {
        GameSettings {
            width: DEFAULT_EXPERT_WIDTH,
            height: DEFAULT_EXPERT_HEIGHT,
            num_mines: DEFAULT_EXPERT_NUM_MINES,
            use_numerals: true,
        }
    }

    /// The settings of the given tier.
    pub fn settings_for_difficulty(difficulty: &GameDifficulty) -> (s: Self)
        ensures
            s == GameSettings::preset(*difficulty),
            s.playable(),
    {
        match difficulty {
            GameDifficulty::Beginner => GameSettings::beginner(),
            GameDifficulty::Intermediate => GameSettings::intermediate(),
            GameDifficulty::Expert => GameSettings::expert(),
        }
    }
}

/// The options that the front end keeps between runs.
#[derive(Debug, Clone, Copy, PartialEq, Eq, Structural)]
pub struct AppState {
    pub difficulty: GameDifficulty,
    pub left_click_chord: bool,
    pub theme: VisualTheme,
    pub fog_of_war: bool,
}

impl Default for AppState {
    fn default() -> (s: Self)
        ensures
            s == (AppState {
                difficulty: GameDifficulty::Intermediate,
                left_click_chord: false,
                theme: VisualTheme::Dark,
                fog_of_war: false,
            }),
    {
        Self {
            difficulty: GameDifficulty::Intermediate,
            left_click_chord: false,
            theme: VisualTheme::Dark,
            fog_of_war: false,
        }
    }
}

} // verus!
