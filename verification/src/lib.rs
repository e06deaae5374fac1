//! The timing and scoring core of Chillscapes, a rhythm game in which looping
//! tracks appear on screen and are locked in by clicking them on the beat.
//!
//! Nothing in this crate draws, plays sound or reads a clock. Positions within
//! a loop are counted in ticks, instants and durations in microseconds,
//! progress in exact fractions and screen coordinates in whole points; the
//! application around the crate converts at its edge and carries out what the
//! functions here decide.

pub mod assets;
pub mod clicks;
pub mod element;
pub mod game;
pub mod game_view;
pub mod geometry;
pub mod judge;
pub mod progress;
mod random;
pub mod tempo;
pub mod title;
