//! A small real-time 2D world simulation: a reticle, a chain of men that
//! follow one another, trees that can be chopped into logs, and an apple.
//!
//! All quantities are fixed-point integers: lengths in thousandths of a world
//! unit, time in microseconds, velocities in thousandths of a world unit per
//! second.
pub mod settings;
pub mod geometry;
pub mod sprite;
mod random;
pub mod entity;
pub mod state;
pub mod audio;
pub mod motion;
pub mod animation;
pub mod lifecycle;
pub mod interaction;
pub mod step;
pub mod world;
