//! A chess engine core.
//!
//! * [`utils`] holds the value types: pieces, moves and their text, castling
//!   rights and errors.
//! * [`board_structs`] holds the position and the rules of the game: which
//!   squares a piece attacks, what a move does to a position, which moves are
//!   legal and in which order they are listed, and how a position is read
//!   from text. The rules are stated as specifications; the board
//!   [`board_structs::board_types::array2d::Array2D`] implements them and is
//!   proved to do so.
//! * [`ai_funcs`] holds the static evaluation and the search: negamax with
//!   alpha-beta pruning, deepened one half-move at a time within a budget of
//!   time.
//! * [`board`] pairs a position with the list of its legal moves.
//! * [`uci`] reads the commands of the Universal Chess Interface and decides
//!   what is to be done about them.

pub mod ai_funcs;
pub mod board;
pub mod board_structs;
pub mod uci;
pub mod utils;
