//! One level of the game: its setup, and what each key press does to it.
use crate::animation::{is_slide_plan, slide_plan, SlidePlan};
use crate::geometry::{level_grid, level_grid_spec, puzzle_geometry, puzzle_height_spec, PuzzleGeometry, CANVAS_WIDTH};
use crate::input::{key_move, key_to_move};
use crate::session::Session;
use crate::tiles::{solved_board, Move, Tiles};
use tinyrand::Xorshift;
use vstd::prelude::*;

verus! {

/// Random moves that shuffle the grid at the start of a level.
pub const SHUFFLE_ITERATIONS: u32 = 512;

/// What the game should do as the level ends.
#[derive(Debug, Clone, Copy, PartialEq, Eq, Structural)]
pub enum LevelOutcome {
    /// Exit the game
    Exit,
    /// Proceed to the next level (or end with a congratulatory message if
    /// there are no more levels)
    NextLevel,
}

/// The state of a level being played.
#[derive(Debug)]
pub struct Level {
    pub tiles: Tiles,
    pub geometry: PuzzleGeometry,
}

/// What to show after a key press.
#[derive(Debug)]
pub enum KeyResponse {
    /// nothing: the key is no slide, or not one that the grid allows
    Ignored,
    /// animate `plan`, click, and end the level with `NextLevel` if `won`
    Slide { plan: SlidePlan, won: bool },
}

impl Level {
    pub open spec fn wf(&self) -> bool {
        &&& self.tiles.wf()
        &&& self.geometry.fits(self.tiles.cols as int, self.tiles.rows as int)
    }

    /// Set up the level of the given index: its grid, shuffled by
    /// `SHUFFLE_ITERATIONS` random moves from the solved order, and its
    /// pixel geometry.
    pub fn start(level: u8, rng: &mut Xorshift) -> (r: Level)
        ensures
            r.wf(),
            (r.tiles.cols, r.tiles.rows) == level_grid_spec(level),
            r.geometry.width == CANVAS_WIDTH,
            r.geometry.height == puzzle_height_spec(r.tiles.rows),
            r.geometry.tile_width == CANVAS_WIDTH / r.tiles.cols as u32,
            r.geometry.tile_height == r.geometry.height / r.tiles.rows as u32,
            exists|ms: Seq<Move>|
                ms.len() == SHUFFLE_ITERATIONS && r.tiles@ == #[trigger] solved_board(
                    r.tiles.cols as nat,
                    r.tiles.rows as nat,
                ).run(ms),
    {
        let (cols, rows) = level_grid(level);
        let geometry = puzzle_geometry(cols, rows);
        let tiles = Tiles::new_shuffled(cols, rows, rng, SHUFFLE_ITERATIONS);
        Level { tiles, geometry }
    }

    /// Respond to a key press: a slide that the grid allows is planned from
    /// the grid as it stands, then applied and counted; any other key
    /// changes nothing.
    pub fn respond_to_key(&mut self, session: &mut Session, key: u8) -> (r: KeyResponse)
        requires
            old(self).wf(),
        ensures
            final(self).wf(),
            final(self).geometry == old(self).geometry,
            final(self).tiles.cols == old(self).tiles.cols,
            final(self).tiles.rows == old(self).tiles.rows,
            match key_move(key) {
                Some(m) => if old(self).tiles@.allows(m) {
                    &&& final(self).tiles@ == old(self).tiles@.after(m)
                    &&& final(session).total_moves == if old(session).total_moves < u32::MAX {
                        (old(session).total_moves + 1) as u32
                    } else {
                        u32::MAX
                    }
                    &&& final(session).level == old(session).level
                    &&& final(session).sound_on == old(session).sound_on
                    &&& final(session).won == old(session).won
                    &&& match r {
                        KeyResponse::Slide { plan, won } => is_slide_plan(
                            plan,
                            old(self).tiles@,
                            old(self).geometry,
                            m,
                        ) && won == final(self).tiles@.is_solved(),
                        KeyResponse::Ignored => false,
                    }
                } else {
                    r is Ignored && final(self).tiles@ == old(self).tiles@ && *final(session) == *old(session)
                },
                None => r is Ignored && final(self).tiles@ == old(self).tiles@ && *final(session) == *old(session),
            },
    {
        let m = match key_to_move(key) {
            Some(m) => m,
            None => return KeyResponse::Ignored,
        };
        if !self.tiles.is_valid_move(m) {
            return KeyResponse::Ignored;
        }
        let plan = slide_plan(&self.tiles, &self.geometry, m);
        self.tiles.do_move(m);
        session.add_move();
        let won = self.tiles.is_won();
        KeyResponse::Slide { plan, won }
    }
}

} // verus!
