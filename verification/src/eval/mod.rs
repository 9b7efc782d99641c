//! Evaluation of the player's notes against the score's targets.

pub mod judge;
