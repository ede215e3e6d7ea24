//! The actor capability and the vocabulary shared by all games.
//!
//! A [`Player`] is any conversational partner that can be asked for a line
//! and told a line. Game logic is written against this trait alone, so a
//! real child process and an in-memory stand-in are interchangeable.

use vstd::prelude::*;

verus! {

/// A per-player score accumulator. Signed: payoff configurations may award
/// negative points.
pub type Score = i32;

/// Why a single exchange with an actor failed.
#[derive(Clone, Copy, Debug, PartialEq, Eq, Structural)]
pub enum ActorError {
    /// No full line arrived within the configured wait.
    ReadTimeout,
    /// The actor closed its output before sending a line.
    UnexpectedEof,
    /// The actor's input was closed when the referee tried to write.
    WriteFailed,
    /// The actor's line did not follow the game's rules.
    ProtocolViolation,
}

/// A failure of a round, naming the side that caused it.
#[derive(Clone, Copy, Debug, PartialEq, Eq, Structural)]
pub enum GameError {
    ErrorLeft(ActorError),
    ErrorRight(ActorError),
}

/// A conversational partner: something the referee can ask for a line and
/// tell a line. Nothing is assumed of the replies; every game handles every
/// possible answer, so any implementation — a spawned program or a scripted
/// test double — may stand here.
pub trait Player {
    /// Wait for the actor's next line.
    fn ask(&mut self) -> Result<String, ActorError>;

    /// Hand the actor a line.
    fn say(&mut self, s: String) -> Result<(), ActorError>;
}

/// A game that can be played between two actors for a fixed number of
/// iterations. Each game states its own precondition (bounds that keep the
/// score arithmetic exact) and its own account of the final scores.
pub trait Game {
    /// What the game asks of a round's configuration.
    spec fn round_requires(&self, iters: u32) -> bool;

    /// What a finished round's result means for this game.
    spec fn round_ensures(&self, iters: u32, r: Result<(Score, Score), GameError>) -> bool;

    /// Play one round: setup, then `iters` iterations, accumulating scores.
    /// The first failure ends the round; no partial score is returned.
    fn round<PL: Player, PR: Player>(
        &self,
        left: &mut PL,
        right: &mut PR,
        iters: u32,
    ) -> (r: Result<(Score, Score), GameError>)
        requires
            self.round_requires(iters),
        ensures
            self.round_ensures(iters, r),
    ;
}

} // verus!
