//! Choosing a move: static evaluation and search.

pub mod ai_types;
pub mod ai_utils;
