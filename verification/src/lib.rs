//! A bitboard chess position: pseudo-legal move generation, move
//! application, and the text form of a position.

pub mod bitboard;
pub mod board;
pub mod error;
pub mod fen_laws;
pub mod fen_util;
pub mod game_state;
pub mod move_application;
pub mod move_generation;
pub mod move_laws;
pub mod piece;
pub mod position;
pub mod text;

pub use game_state::GameState;
