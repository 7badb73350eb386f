//! The mathematical side of the engine: what a piece, a field and a game
//! are, what each step of the game does to them, and what holds of every
//! piece, field and game that the engine can reach.

pub mod grid;
pub mod piece;
pub mod rules;
