//! A sliding-tile picture puzzle: the grid model, the pixel geometry and
//! animation plans, the level and session decisions, and the picture and
//! launch-option handling, each stated and proved.
pub mod animation;
pub mod audio;
pub mod geometry;
pub mod input;
pub mod launch;
pub mod level;
pub mod palette;
pub mod picture;
pub mod session;
pub mod tiles;
