//! Core logic of a small 2D arcade shooter: fixed-point geometry and
//! collision tests, frame timers, the per-frame gameplay systems (spawning,
//! movement, collisions, damage, scoring, game-over handling), the menu state
//! machine, and the two codecs for the persisted high-score record.
//!
//! Rendering, input polling, audio playback and file access are engine
//! services that live outside this crate; the functions here work on plain
//! values that such services hand in and take back.

pub mod database;
pub mod gameplay;
pub mod geometry;
pub mod saving_system;
pub mod timer;
pub mod ui;
