//! An authoritative engine for a small multiplayer grid game: players share an
//! 8x8 board, move one cell at a time, and knock each other back to the first
//! free cell on collision.

pub mod board;
pub mod engine;
pub mod laws;
pub mod player;
pub mod server;
pub mod session;
