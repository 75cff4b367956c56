//! The players.

pub mod abminimax;
pub mod random;
