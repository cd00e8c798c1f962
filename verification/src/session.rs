//! One sitting at the board: the game in progress, its moves and the tally
//! of games won and lost, with the decisions that the front end leaves to
//! the library.

use vstd::prelude::*;
use crate::enums::GameState;
use crate::grid::Grid;
use crate::minesweeper::{Coordinate, Error, GameBoard, PlayResult, RevealType};
use crate::outcome::first_losing_square;
use crate::plays::{PlayEntry, PlayList};
use crate::state::{AppState, GameSettings};

verus! {

/// The three ways of clicking on a square.
#[derive(Debug, Clone, Copy, PartialEq, Eq, Structural)]
pub enum Click {
    Primary,
    Middle,
    Secondary,
}

/// The move that a click stands for: the primary button reveals, and chords
/// as well where the player asked for that; the middle button chords; the
/// secondary button flags.
pub open spec fn move_for(click: Click, left_click_chord: bool) -> RevealType {
    match click {
        Click::Primary => if left_click_chord {
            RevealType::RevealChord
        } else {
            RevealType::Reveal
        },
        Click::Middle => RevealType::Chord,
        Click::Secondary => RevealType::Flag,
    }
}

/// The move that a click stands for.
pub fn reveal_type_for(click: Click, left_click_chord: bool) -> (t: RevealType)
    ensures
        t == move_for(click, left_click_chord),
{
    match click {
        Click::Primary => if left_click_chord {
            RevealType::RevealChord
        } else {
            RevealType::Reveal
        },
        Click::Middle => RevealType::Chord,
        Click::Secondary => RevealType::Flag,
    }
}

/// The game in progress and what has been played so far.
#[derive(Debug)]
pub struct GameSession {
    pub gameboard: GameBoard,
    pub state: AppState,
    pub detonated_on: Option<Coordinate>,
    pub game_state: GameState,
    pub game_settings: GameSettings,
    pub plays: PlayList,
    pub wins: u32,
    pub losses: u32,
}

impl Clone for GameSession {
    fn clone(&self) -> (s: Self)
        ensures
            s.gameboard@ == self.gameboard@,
            s.gameboard.same_setup(&self.gameboard),
            s.plays.list@ == self.plays.list@,
            s.same_sitting(self),
            s.game_state == self.game_state,
            s.detonated_on == self.detonated_on,
    {
        GameSession {
            gameboard: self.gameboard.clone(),
            state: self.state,
            detonated_on: self.detonated_on,
            game_state: self.game_state,
            game_settings: self.game_settings,
            plays: self.plays.clone(),
            wins: self.wins,
            losses: self.losses,
        }
    }
}

impl GameSession {
    /// The board is well formed and a board of the settings' size can be
    /// made.
    pub open spec fn wf(&self) -> bool {
        &&& self.gameboard.wf()
        &&& self.game_settings.width * self.game_settings.height <= u32::MAX
    }

    /// Everything but the board, the game state, the moves and the square of
    /// the explosion is as in `other`.
    pub open spec fn same_sitting(&self, other: &GameSession) -> bool {
        &&& self.state == other.state
        &&& self.game_settings == other.game_settings
        &&& self.wins == other.wins
        &&& self.losses == other.losses
    }

    /// A sitting that starts with the given options: the board of the
    /// options' tier, no game started, nothing won or lost.
    pub fn new(state: AppState) -> (s: Self)
        ensures
            s.wf(),
            s.state == state,
            s.game_settings == GameSettings::preset(state.difficulty),
            s.gameboard.width == s.game_settings.width,
            s.gameboard.height == s.game_settings.height,
            !s.gameboard.is_populated,
            s.gameboard@ == Grid::blank(
                s.game_settings.width as nat,
                s.game_settings.height as nat,
            ),
            s.game_state == GameState::NotStarted,
            s.detonated_on is None,
            s.plays.list@.len() == 0,
            s.wins == 0,
            s.losses == 0,
    {
        let settings = GameSettings::settings_for_difficulty(&state.difficulty);
        GameSession {
            gameboard: GameBoard::new(settings.width, settings.height),
            state,
            detonated_on: None,
            game_state: GameState::NotStarted,
            game_settings: settings,
            plays: PlayList::default(),
            wins: 0,
            losses: 0,
        }
    }

    /// Takes the settings of the tier that the options name. The board in
    /// play stays until the next new game.
    pub fn update_difficulty_settings(&mut self)
        requires
            old(self).gameboard.wf(),
        ensures
            final(self).wf(),
            final(self).game_settings == GameSettings::preset(old(self).state.difficulty),
            final(self).gameboard == old(self).gameboard,
            final(self).state == old(self).state,
            final(self).game_state == old(self).game_state,
            final(self).detonated_on == old(self).detonated_on,
            final(self).plays == old(self).plays,
            final(self).wins == old(self).wins,
            final(self).losses == old(self).losses,
    {
        self.game_settings = GameSettings::settings_for_difficulty(&self.state.difficulty);
    }

    /// A new game on a blank board of the settings' size.
    pub fn reset_new_game(&mut self)
        requires
            old(self).game_settings.width * old(self).game_settings.height <= u32::MAX,
        ensures
            final(self).wf(),
            final(self).same_sitting(old(self)),
            final(self).gameboard@ == Grid::blank(
                old(self).game_settings.width as nat,
                old(self).game_settings.height as nat,
            ),
            final(self).gameboard.num_mines == 0,
            !final(self).gameboard.is_populated,
            final(self).plays.list@.len() == 0,
            final(self).game_state == GameState::NotStarted,
            final(self).detonated_on is None,
    {
        self.gameboard = GameBoard::new(self.game_settings.width, self.game_settings.height);
        self.plays.clear();
        self.game_state = GameState::NotStarted;
        self.detonated_on = None;
    }

    /// The same board once more: every square hidden and unflagged, the
    /// mines where they were.
    pub fn reset_existing_game(&mut self)
        ensures
            final(self).same_sitting(old(self)),
            final(self).gameboard@ == old(self).gameboard@.cover(),
            final(self).gameboard.same_setup(&old(self).gameboard),
            final(self).plays.list@.len() == 0,
            final(self).game_state == GameState::NotStarted,
            final(self).detonated_on == old(self).detonated_on,
    {
        self.gameboard.reset_existing();
        self.plays.clear();
        self.game_state = GameState::NotStarted;
    }

    /// The first click turned the board of `before` into that of `self` by
    /// way of `mined`: where no mines had been laid yet, `mined` is the board
    /// with the settings' number of mines laid away from the click; then,
    /// where the settings ask for numerals, they were written.
    pub open spec fn started_via(
        &self,
        before: &GameSession,
        first_click: Coordinate,
        mined: Grid,
    ) -> bool {
        &&& if before.gameboard.is_populated {
            mined == before.gameboard@ && self.gameboard.num_mines == before.gameboard.num_mines
        } else {
            &&& mined.laid(before.gameboard@, Some(first_click))
            &&& mined.mines() == before.gameboard@.mines() + before.game_settings.num_mines
            &&& self.gameboard.num_mines == before.game_settings.num_mines
        }
        &&& if before.game_settings.use_numerals {
            self.gameboard@.numerals_of(mined) && self.gameboard@.numbered()
        } else {
            self.gameboard@ == mined
        }
    }

    /// The first click turned the board of `before` into that of `self`.
    pub open spec fn started(&self, before: &GameSession, first_click: Coordinate) -> bool {
        exists|mined: Grid| self.started_via(before, first_click, mined)
    }

    /// Starts the game on the first click. Fails, and changes nothing, when
    /// mines have yet to be laid and the board has too little room for them
    /// away from the click.
    pub fn start_game(&mut self, first_click: Coordinate) -> (r: Result<(), Error>)
        requires
            old(self).gameboard.wf(),
        ensures
            final(self).gameboard.wf(),
            final(self).same_sitting(old(self)),
            final(self).plays == old(self).plays,
            final(self).detonated_on == old(self).detonated_on,
            final(self).gameboard.width == old(self).gameboard.width,
            final(self).gameboard.height == old(self).gameboard.height,
            match r {
                Ok(_) => {
                    &&& old(self).gameboard.is_populated || old(self).game_settings.num_mines
                        <= old(self).gameboard@.free_count(Some(first_click))
                    &&& final(self).game_state == GameState::Playing
                    &&& final(self).gameboard.is_populated
                    &&& final(self).started(old(self), first_click)
                },
                Err(e) => {
                    &&& e == Error::ExcessiveMines
                    &&& !old(self).gameboard.is_populated
                    &&& old(self).game_settings.num_mines > old(self).gameboard@.free_count(
                        Some(first_click),
                    )
                    &&& final(self).gameboard@ == old(self).gameboard@
                    &&& final(self).gameboard.same_setup(&old(self).gameboard)
                    &&& final(self).game_state == old(self).game_state
                },
            },
    {
        if !self.gameboard.is_populated {
            match self.gameboard.populate_mines_around(
                self.game_settings.num_mines,
                Some(first_click),
            ) {
                Ok(_) => {},
                Err(e) => {
                    return Err(e);
                },
            }
        }
        let ghost mined = self.gameboard@;
        self.game_state = GameState::Playing;
        if self.game_settings.use_numerals {
            let _ = self.gameboard.populate_numerals();
        }
        proof {
            assert(self.started_via(old(self), first_click, mined));
        }
        Ok(())
    }

    /// Records the move and makes it; an explosion in its result is kept as
    /// the square on which the game was lost.
    pub fn play(&mut self, x: u32, y: u32, reveal_type: RevealType) -> (r: Result<PlayResult, Error>)
        requires
            old(self).gameboard.wf(),
        ensures
            final(self).gameboard.wf(),
            final(self).same_sitting(old(self)),
            final(self).game_state == old(self).game_state,
            final(self).gameboard.same_setup(&old(self).gameboard),
            final(self).plays.list@ == old(self).plays.list@.push(
                PlayEntry { coord: Coordinate { x, y }, play_type: reveal_type },
            ),
            match r {
                Ok(res) => {
                    &&& old(self).gameboard@.contains(x as int, y as int)
                    &&& final(self).gameboard@ == old(self).gameboard@.play(
                        x as int,
                        y as int,
                        reveal_type,
                    ).0
                    &&& res@ == old(self).gameboard@.play(x as int, y as int, reveal_type).1
                    &&& final(self).detonated_on == match res@.first_explosion() {
                        Some(c) => Some(c),
                        None => old(self).detonated_on,
                    }
                },
                Err(e) => {
                    &&& e == Error::InvalidCoordinates
                    &&& !old(self).gameboard@.contains(x as int, y as int)
                    &&& final(self).gameboard@ == old(self).gameboard@
                    &&& final(self).detonated_on == old(self).detonated_on
                },
            },
    {
        self.plays.push(PlayEntry { coord: Coordinate { x, y }, play_type: reveal_type });
        let r = self.gameboard.play(x, y, reveal_type);
        match &r {
            Ok(res) => {
                if let Some(c) = first_losing_square(res) {
                    self.detonated_on = Some(c);
                }
            },
            Err(_) => {},
        }
        r
    }

    /// Ends the game when it has been lost or won, and says whether it was
    /// won just now. A game in play is lost once a mine is revealed; else it
    /// is won once every safe square is revealed, and then every mine gets a
    /// flag. Any other game stays as it is.
    pub fn check_game_end(&mut self) -> (won: bool)
        requires
            old(self).gameboard.wf(),
            old(self).wins < u32::MAX,
            old(self).losses < u32::MAX,
        ensures
            final(self).gameboard.wf(),
            final(self).state == old(self).state,
            final(self).game_settings == old(self).game_settings,
            final(self).plays == old(self).plays,
            final(self).detonated_on == old(self).detonated_on,
            final(self).gameboard.same_setup(&old(self).gameboard),
            if old(self).game_state == GameState::Playing && old(self).gameboard@.lost() {
                &&& !won
                &&& final(self).game_state == GameState::EndedLoss
                &&& final(self).gameboard@ == old(self).gameboard@
                &&& final(self).losses == old(self).losses + 1
                &&& final(self).wins == old(self).wins
            } else if old(self).game_state == GameState::Playing && old(self).gameboard@.won() {
                &&& won
                &&& final(self).game_state == GameState::EndedWin
                &&& final(self).gameboard@ == old(self).gameboard@.flag_mines()
                &&& final(self).wins == old(self).wins + 1
                &&& final(self).losses == old(self).losses
            } else {
                &&& !won
                &&& final(self).game_state == old(self).game_state
                &&& final(self).gameboard@ == old(self).gameboard@
                &&& final(self).wins == old(self).wins
                &&& final(self).losses == old(self).losses
            },
    {
        if self.game_state == GameState::Playing && self.gameboard.is_loss_configuration() {
            self.game_state = GameState::EndedLoss;
            self.losses += 1;
            false
        } else if self.game_state == GameState::Playing && self.gameboard.is_win_configuration() {
            self.game_state = GameState::EndedWin;
            self.gameboard.flag_all_mines();
            self.wins += 1;
            true
        } else {
            false
        }
    }

    /// Pauses a game in play, resumes a paused one, leaves any other alone.
    pub fn toggle_pause_state(&mut self)
        ensures
            final(self).game_state == match old(self).game_state {
                GameState::Playing => GameState::Paused,
                GameState::Paused => GameState::Playing,
                other => other,
            },
            final(self).gameboard == old(self).gameboard,
            final(self).same_sitting(old(self)),
            final(self).plays == old(self).plays,
            final(self).detonated_on == old(self).detonated_on,
    {
        if self.game_state == GameState::Playing {
            self.pause_game();
        } else if self.game_state == GameState::Paused {
            self.resume_game();
        }
    }

    /// Marks the game paused.
    pub fn pause_game(&mut self)
        ensures
            final(self).game_state == GameState::Paused,
            final(self).gameboard == old(self).gameboard,
            final(self).same_sitting(old(self)),
            final(self).plays == old(self).plays,
            final(self).detonated_on == old(self).detonated_on,
    {
        self.game_state = GameState::Paused;
    }

    /// Marks the game as in play.
    pub fn resume_game(&mut self)
        ensures
            final(self).game_state == GameState::Playing,
            final(self).gameboard == old(self).gameboard,
            final(self).same_sitting(old(self)),
            final(self).plays == old(self).plays,
            final(self).detonated_on == old(self).detonated_on,
    {
        self.game_state = GameState::Playing;
    }
}

} // verus!
