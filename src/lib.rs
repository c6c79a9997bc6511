//! A terminal word-guessing game: the guess evaluation and the game state
//! machine, verified.

pub mod feedback;
pub mod word;
pub mod dictionary;
pub mod game;
