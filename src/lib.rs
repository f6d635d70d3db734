//! Per-frame state logic of a small arcade game: player movement inside a
//! bordered play-field, a score counter with its high score, and the text of
//! the two HUD elements that show them.
//!
//! Positions are fixed point: one play-field unit is a million subunits, and
//! elapsed time is counted in microseconds, so that the player's speed of 200
//! units per second is exactly 200 subunits per microsecond.

pub mod movement;
pub mod score;
pub mod hud;
pub mod world;
