//! A snake-style actor on a square toroidal grid: index arithmetic for
//! directional steps with wraparound, tick-driven advancement with a bounded
//! trail and self-collision reset, and an item spawner that places items on
//! free cells.
pub mod geometry;
pub mod character;
pub mod items;
pub mod screen;
pub mod game;
