//! A small arcade simulation: a player dodges homing tofu that spawn from the
//! edges of the arena, surviving tofu pay out currency, a hit ends the game.
//!
//! All quantities are integers: positions in world units, headings in
//! millionths of a unit vector, time in milliseconds, currency in whole coins.
pub mod geometry;
pub mod rng;
pub mod tofu;
pub mod game;
pub mod laws;
