//! Value types shared by the board, the move generator and the search.

pub mod castling;
pub mod chess_errors;
pub mod game_move;
pub mod gamemove1d;
pub mod pieces;
