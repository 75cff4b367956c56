//! What the searches share.

pub mod clock;
pub mod heuristics;
pub mod tables;
