//! The boards that hold a position.

pub mod array2d;
