//! The rules of a small falling-block puzzle game: pieces, the playing
//! field, and the game state that moves pieces, locks them, clears full
//! lines and keeps the score.

pub mod tetro;
pub mod board;
pub mod game;
pub mod controls;
mod shuffle;
