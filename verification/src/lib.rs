//! A falling-block puzzle engine: piece geometry, a fixed-size playing field,
//! and the fall / lock / clear / spawn state machine with scoring.
//!
//! The engine is driven from outside: a caller feeds it the current time
//! through [`game::Game::tick`] and player input through
//! [`game::Game::key_pressed`], and reads the field, the active piece, the
//! score and the game-over flag back after each call.
//!
//! What each operation does is stated over the mathematical values of
//! [`model`], where the laws of the game are proved as well.

pub mod block;
pub mod board;
pub mod game;
pub mod model;
pub mod randomizer;
pub mod tetromino;

pub use crate::block::Block;
pub use crate::board::Board;
pub use crate::game::Game;
pub use crate::game::Key;
pub use crate::randomizer::Randomizer;
pub use crate::tetromino::Tetromino;
