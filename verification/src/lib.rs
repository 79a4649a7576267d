//! Core of a turn-based roguelike engine: an infinite chunked world with
//! lazily generated terrain, monsters and items, a deterministic seeded
//! random-number stream, a line-oriented command/replay log, and the
//! turn-processing state machine that advances the simulation.
//!
//! Rendering, input devices, file I/O and CLI handling live outside this
//! crate; everything here is pure simulation logic with verified contracts.

pub mod codec;
pub mod engine;
pub mod formula;
pub mod generator;
pub mod item;
pub mod laws;
pub mod level;
pub mod monster;
pub mod player;
pub mod point;
pub mod rng;
pub mod state;
pub mod world;
