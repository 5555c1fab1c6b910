//! Replay playback: the linear re-simulation's cursor, the stores of link
//! snapshots, and the coordination of asynchronous seeks.
//!
//! The link is deterministic, so any recorded tick can be reached by loading
//! the nearest snapshot at or before it and stepping forward. A snapshot
//! itself is opaque here: what the stores know of it is its tick.
pub mod drive;
pub mod engine;
pub mod laws;
pub mod seek;
pub mod ticks;
