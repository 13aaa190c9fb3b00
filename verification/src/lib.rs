//! Console bridge between a game server's remote console and a map generator:
//! the vote parser, the session state machine with its bounded retry policy,
//! and the seeded random engine that makes generation runs reproducible.

pub mod bridge;
pub mod econ;
pub mod generation;
pub mod random;
pub mod seed;
pub mod text;
pub mod vote;
