//! A two-player, turn-based duel engine played on a fixed grid.
//!
//! The engine is split into three layers:
//! - [`grid`]: cell states, coordinate parsing and squared-distance geometry;
//! - [`board`]: the playing field and move validation/execution;
//! - [`render`]: the deterministic text rendering of the board;
//! - [`duel`]: the two player records, the action dispatcher and the
//!   duel lifecycle (health, conclusion).
//!
//! All waiting for input, message delivery and storage of duel instances is
//! the caller's concern: the engine is advanced synchronously, one action at
//! a time, through [`duel::Duel::input_action`].

pub mod board;
pub mod duel;
pub mod grid;
pub mod render;
