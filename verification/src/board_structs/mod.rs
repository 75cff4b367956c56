//! The position, the rules of the game on it, and the boards that hold it.

pub mod attacks;
pub mod board;
pub mod board_types;
pub mod fen;
pub mod generator;
pub mod geometry;
pub mod laws;
pub mod legal;
pub mod move_list;
pub mod position;
