//! Core rules of a falling-block puzzle game: piece geometry and rotation,
//! wall-kick resolution, locking, row clearing, scoring, a single hold slot,
//! and game-over detection on a fixed-size grid.

pub mod board;
pub mod kicks;
pub mod piece;
pub mod rng;
