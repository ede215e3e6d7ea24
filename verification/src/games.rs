//! The built-in games: one module per game protocol and state machine.

pub mod dilemma;
pub mod tug_of_war;
