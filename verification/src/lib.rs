//! A referee for iterated two-player games played over a line protocol.
//!
//! External programs take part in a game by exchanging newline-terminated
//! text with the referee. The referee speaks to each program through the
//! [`game::Player`] capability, sequences the conversation according to the
//! rules of the chosen game, and adds up the per-iteration scores. Any
//! failure — a malformed reply, an overspent budget, a broken stream — ends
//! the round at once and is attributed to the side that caused it.

pub mod decimal;
pub mod game;
pub mod games;
