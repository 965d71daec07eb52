//! The state of a whole game: the level being played, whether sound is on,
//! and how many tiles were moved.
use crate::level::LevelOutcome;
use vstd::prelude::*;

verus! {

/// More moves than this are worth telling the player at the end.
pub const MOVES_WORTH_TELLING: u32 = 4;

/// Pause after a solved level while the tune plays, in milliseconds.
pub const TUNE_PAUSE_MS: u32 = 500;

/// Pause after a solved level when sound is off, in milliseconds.
pub const SILENT_PAUSE_MS: u32 = 2000;

#[derive(Debug, Clone, Copy, PartialEq, Eq, Structural)]
pub struct Session {
    /// index of the level being played
    pub level: u8,
    pub sound_on: bool,
    /// tiles moved in all levels so far
    pub total_moves: u32,
    /// set once every level of the catalog was solved
    pub won: bool,
}

/// What comes after a level.
#[derive(Debug, Clone, Copy, PartialEq, Eq, Structural)]
pub enum SessionStep {
    /// show the solved picture, celebrate, fade out and load the next level
    Advance,
    /// fade out and end the game
    Stop,
}

impl Session {
    pub fn new(starting_level: u8, sound_on: bool) -> (r: Session)
        ensures
            r == (Session { level: starting_level, sound_on, total_moves: 0, won: false }),
    {
        Session { level: starting_level, sound_on, total_moves: 0, won: false }
    }

    /// Disable sound.
    pub fn sound_off(&mut self)
        ensures
            *final(self) == (Session { sound_on: false, ..*old(self) }),
    {
        self.sound_on = false;
    }

    pub fn is_sound_on(&self) -> (r: bool)
        ensures
            r == self.sound_on,
    {
        self.sound_on
    }

    /// Count one more tile move; the count stops at `u32::MAX`.
    pub fn add_move(&mut self)
        ensures
            *final(self) == (Session {
                total_moves: if old(self).total_moves < u32::MAX {
                    (old(self).total_moves + 1) as u32
                } else {
                    u32::MAX
                },
                ..*old(self)
            }),
    {
        self.total_moves = self.total_moves.saturating_add(1);
    }

    pub fn total_moves(&self) -> (r: u32)
        ensures
            r == self.total_moves,
    {
        self.total_moves
    }

    /// Whether the total number of moves is told at the end of the game.
    pub fn tells_total_moves(&self) -> (r: bool)
        ensures
            r == (self.total_moves > MOVES_WORTH_TELLING),
    {
        self.total_moves > MOVES_WORTH_TELLING
    }

    /// How long the solved picture stays on screen before the fade: the
    /// length of the tune when sound is on, longer in silence.
    pub fn celebration_pause_ms(&self) -> (r: u32)
        ensures
            r == if self.sound_on {
                TUNE_PAUSE_MS
            } else {
                SILENT_PAUSE_MS
            },
    {
        if self.sound_on {
            TUNE_PAUSE_MS
        } else {
            SILENT_PAUSE_MS
        }
    }

    /// Whether the level being played comes after the first: its picture is
    /// loaded behind a loading screen.
    pub fn shows_loading_screen(&self) -> (r: bool)
        ensures
            r == (self.level > 0),
    {
        self.level > 0
    }

    /// Decide what follows a level that ended with `outcome`: a solved level
    /// leads to the next one, leaving ends the game.
    pub fn finish_level(&mut self, outcome: LevelOutcome) -> (r: SessionStep)
        ensures
            outcome == LevelOutcome::NextLevel ==> r == SessionStep::Advance && *final(self) == (Session {
                level: if old(self).level < u8::MAX {
                    (old(self).level + 1) as u8
                } else {
                    u8::MAX
                },
                ..*old(self)
            }),
            outcome == LevelOutcome::Exit ==> r == SessionStep::Stop && *final(self) == *old(self),
    {
        match outcome {
            LevelOutcome::NextLevel => {
                self.level = self.level.saturating_add(1);
                SessionStep::Advance
            },
            LevelOutcome::Exit => SessionStep::Stop,
        }
    }

    /// The catalog has no picture for the current level: every level was
    /// solved and the game is won.
    pub fn complete(&mut self)
        ensures
            *final(self) == (Session { won: true, ..*old(self) }),
    {
        self.won = true;
    }
}

} // verus!
