//! Simulation core of a falling-block puzzle game: pieces and their
//! rotation, the board, collision queries, wall kicks, scoring and the
//! per-frame state machine.
pub mod shape;
pub mod piece;
pub mod board;
pub mod collision;
pub mod scoring;
pub mod srs;
mod random;
pub mod game;
pub mod laws;
