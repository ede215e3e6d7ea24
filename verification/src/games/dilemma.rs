//! An iterated prisoner's dilemma.
//!
//! Each iteration, both actors choose whether to defect or to cooperate,
//! and learn the opponent's choice afterwards, which allows retaliatory
//! strategies. The payoff matrix is configurable: `both_defects` points to
//! each when both defect, `both_cooperate` to each when both cooperate, and
//! `betrayer_reward` to a lone defector while the betrayed side gets 0.

use vstd::prelude::*;

use crate::decimal::render_u32;
use crate::game::{ActorError, Game, GameError, Player, Score};

verus! {

/// One actor's choice in one iteration.
#[derive(Clone, Copy, Debug, PartialEq, Eq, Structural)]
pub enum Decision {
    Cooperate,
    Defect,
}

/// The lines accepted as a decision: exactly the two literals.
pub open spec fn spec_parse_decision(s: Seq<char>) -> Option<Decision> {
    if s == "COOPERATE"@ {
        Some(Decision::Cooperate)
    } else if s == "DEFECT"@ {
        Some(Decision::Defect)
    } else {
        None
    }
}

/// The line that announces a decision.
pub open spec fn spec_decision_line(d: Decision) -> Seq<char> {
    match d {
        Decision::Cooperate => "COOPERATE"@,
        Decision::Defect => "DEFECT"@,
    }
}

fn str_eq(a: &str, b: &str) -> (r: bool)
    ensures
        r == (a@ == b@),
{
    let an: usize = a.unicode_len();
    let bn: usize = b.unicode_len();
    if an != bn {
        return false;
    }
    let mut i: usize = 0;
    while i < an
        invariant
            an == a@.len(),
            an == b@.len(),
            i <= an,
            forall|j: int| 0 <= j < i ==> a@[j] == b@[j],
        decreases an - i,
    {
        if a.get_char(i) != b.get_char(i) {
            return false;
        }
        i = i + 1;
    }
    proof {
        assert(a@ =~= b@);
    }
    true
}

impl Decision {
    /// Read an actor's reply. Any line but the two recognized literals is a
    /// protocol violation.
    pub fn from_str(s: &str) -> (r: Result<Decision, ActorError>)
        ensures
            match r {
                Ok(d) => spec_parse_decision(s@) == Some(d),
                Err(e) => spec_parse_decision(s@) is None && e == ActorError::ProtocolViolation,
            },
    {
        if str_eq(s, "COOPERATE") {
            Ok(Decision::Cooperate)
        } else if str_eq(s, "DEFECT") {
            Ok(Decision::Defect)
        } else {
            Err(ActorError::ProtocolViolation)
        }
    }

    /// The line that announces this decision to the opponent.
    pub fn to_str(&self) -> (r: &'static str)
        ensures
            r@ == spec_decision_line(*self),
    {
        match self {
            Decision::Cooperate => "COOPERATE",
            Decision::Defect => "DEFECT",
        }
    }
}

/// Parsing inverts announcing: the line sent for a decision is read back as
/// that same decision, so two referees at the two ends of a wire agree.
pub proof fn lemma_parse_decision_line(d: Decision)
    ensures
        spec_parse_decision(spec_decision_line(d)) == Some(d),
{
    reveal_strlit("COOPERATE");
    reveal_strlit("DEFECT");
    assert("COOPERATE"@.len() == 9);
    assert("DEFECT"@.len() == 6);
}

/// The payoff configuration of an iterated prisoner's dilemma.
#[derive(Clone, Copy, Debug)]
pub struct PrisonerDilemma {
    /// Each side's points when both defect.
    pub both_defects: Score,
    /// The defector's points when the other side cooperates; the betrayed
    /// side gets 0.
    pub betrayer_reward: Score,
    /// Each side's points when both cooperate.
    pub both_cooperate: Score,
}

/// The left side's points for one pair of simultaneous decisions.
pub open spec fn payoff_left(g: PrisonerDilemma, l: Decision, r: Decision) -> int {
    match (l, r) {
        (Decision::Cooperate, Decision::Cooperate) => g.both_cooperate as int,
        (Decision::Cooperate, Decision::Defect) => 0,
        (Decision::Defect, Decision::Cooperate) => g.betrayer_reward as int,
        (Decision::Defect, Decision::Defect) => g.both_defects as int,
    }
}

/// The right side's points: the matrix is symmetric under swapping sides.
pub open spec fn payoff_right(g: PrisonerDilemma, l: Decision, r: Decision) -> int {
    payoff_left(g, r, l)
}

/// The left side's total over a history of decision pairs.
pub open spec fn total_left(g: PrisonerDilemma, ds: Seq<(Decision, Decision)>) -> int
    decreases ds.len(),
{
    if ds.len() == 0 {
        0
    } else {
        total_left(g, ds.drop_last()) + payoff_left(g, ds.last().0, ds.last().1)
    }
}

/// The right side's total over a history of decision pairs.
pub open spec fn total_right(g: PrisonerDilemma, ds: Seq<(Decision, Decision)>) -> int
    decreases ds.len(),
{
    if ds.len() == 0 {
        0
    } else {
        total_right(g, ds.drop_last()) + payoff_right(g, ds.last().0, ds.last().1)
    }
}

/// How large a payoff can be in magnitude, whatever the decisions.
pub open spec fn max_abs_payoff(g: PrisonerDilemma) -> int {
    let a = score_magnitude(g.both_defects);
    let b = score_magnitude(g.betrayer_reward);
    let c = score_magnitude(g.both_cooperate);
    if a >= b && a >= c {
        a
    } else if b >= c {
        b
    } else {
        c
    }
}

/// The magnitude of a score.
pub open spec fn score_magnitude(s: Score) -> int {
    if s < 0 {
        -(s as int)
    } else {
        s as int
    }
}

/// The per-iteration score follows the payoff matrix exactly, for every
/// payoff configuration and every pair of decisions.
pub proof fn lemma_payoff_matrix(g: PrisonerDilemma, l: Decision, r: Decision)
    ensures
        l == Decision::Cooperate && r == Decision::Cooperate ==> payoff_left(g, l, r)
            == g.both_cooperate as int && payoff_right(g, l, r) == g.both_cooperate as int,
        l == Decision::Defect && r == Decision::Defect ==> payoff_left(g, l, r)
            == g.both_defects as int && payoff_right(g, l, r) == g.both_defects as int,
        l == Decision::Cooperate && r == Decision::Defect ==> payoff_left(g, l, r) == 0
            && payoff_right(g, l, r) == g.betrayer_reward as int,
        l == Decision::Defect && r == Decision::Cooperate ==> payoff_left(g, l, r)
            == g.betrayer_reward as int && payoff_right(g, l, r) == 0,
{
}

/// Totals accumulate one iteration at a time: a history extended by one
/// decision pair is worth exactly the old total plus that pair's payoff —
/// no drift, no double counting.
pub proof fn lemma_total_push(g: PrisonerDilemma, ds: Seq<(Decision, Decision)>, l: Decision, r: Decision)
    ensures
        total_left(g, ds.push((l, r))) == total_left(g, ds) + payoff_left(g, l, r),
        total_right(g, ds.push((l, r))) == total_right(g, ds) + payoff_right(g, l, r),
{
    assert(ds.push((l, r)).drop_last() =~= ds);
}

proof fn lemma_payoff_bound(g: PrisonerDilemma, l: Decision, r: Decision)
    ensures
        -max_abs_payoff(g) <= payoff_left(g, l, r) <= max_abs_payoff(g),
        -max_abs_payoff(g) <= payoff_right(g, l, r) <= max_abs_payoff(g),
{
}

proof fn lemma_total_bound(g: PrisonerDilemma, ds: Seq<(Decision, Decision)>)
    ensures
        -(ds.len() as int * max_abs_payoff(g)) <= total_left(g, ds) <= ds.len() as int
            * max_abs_payoff(g),
        -(ds.len() as int * max_abs_payoff(g)) <= total_right(g, ds) <= ds.len() as int
            * max_abs_payoff(g),
    decreases ds.len(),
{
    let m = max_abs_payoff(g);
    if ds.len() > 0 {
        lemma_total_bound(g, ds.drop_last());
        lemma_payoff_bound(g, ds.last().0, ds.last().1);
        assert((ds.len() as int - 1) * m + m == ds.len() as int * m) by (nonlinear_arith);
    }
}

/// The referee's side of the conversation with one dilemma actor.
pub struct GameMediator {}

impl GameMediator {
    pub fn new() -> (m: GameMediator) {
        GameMediator {}
    }

    /// Setup: tell the actor how many iterations will be played.
    pub fn initial<P: Player>(&mut self, actor: &mut P, iters: u32) -> Result<(), ActorError> {
        actor.say(render_u32(iters))
    }

    /// Ask the actor for its decision this iteration. The result is the
    /// parse of whatever line the actor chose to send.
    pub fn decision<P: Player>(&mut self, actor: &mut P) -> Result<Decision, ActorError> {
        let line = match actor.ask() {
            Ok(l) => l,
            Err(e) => return Err(e),
        };
        Decision::from_str(line.as_str())
    }

    /// Tell the actor the opponent's decision.
    pub fn notify<P: Player>(&mut self, actor: &mut P, d: &Decision) -> Result<(), ActorError> {
        actor.say(d.to_str().to_owned())
    }
}

impl PrisonerDilemma {
    pub fn new(mutual_defects: Score, defect: Score, cooperate: Score) -> (g: PrisonerDilemma)
        ensures
            g.both_defects == mutual_defects,
            g.betrayer_reward == defect,
            g.both_cooperate == cooperate,
    {
        PrisonerDilemma { both_defects: mutual_defects, betrayer_reward: defect, both_cooperate: cooperate }
    }

    /// The standard payoff configuration.
    pub fn default() -> (g: PrisonerDilemma)
        ensures
            g.both_defects == 1,
            g.betrayer_reward == 10,
            g.both_cooperate == 5,
    {
        Self::new(1, 10, 5)
    }

    /// The payoff matrix applied to one pair of simultaneous decisions.
    pub fn payoff(&self, l: Decision, r: Decision) -> (s: (Score, Score))
        ensures
            s.0 == payoff_left(*self, l, r),
            s.1 == payoff_right(*self, l, r),
    {
        match (l, r) {
            (Decision::Cooperate, Decision::Cooperate) => (self.both_cooperate, self.both_cooperate),
            (Decision::Cooperate, Decision::Defect) => (0, self.betrayer_reward),
            (Decision::Defect, Decision::Cooperate) => (self.betrayer_reward, 0),
            (Decision::Defect, Decision::Defect) => (self.both_defects, self.both_defects),
        }
    }

    /// One iteration: ask both actors for a decision, tell each the
    /// other's, and score the pair by the payoff matrix. A failure is
    /// attributed to the actor whose exchange broke.
    pub fn iteration<PL: Player, PR: Player>(
        &self,
        left: &mut GameMediator,
        left_actor: &mut PL,
        right: &mut GameMediator,
        right_actor: &mut PR,
    ) -> (r: Result<(Score, Score), GameError>)
        ensures
            r matches Ok(s) ==> exists|l: Decision, rd: Decision|
                s.0 == payoff_left(*self, l, rd) && s.1 == payoff_right(*self, l, rd),
    {
        let l_decision = match left.decision(left_actor) {
            Ok(d) => d,
            Err(e) => return Err(GameError::ErrorLeft(e)),
        };
        let r_decision = match right.decision(right_actor) {
            Ok(d) => d,
            Err(e) => return Err(GameError::ErrorRight(e)),
        };
        match left.notify(left_actor, &r_decision) {
            Ok(u) => u,
            Err(e) => return Err(GameError::ErrorLeft(e)),
        };
        match right.notify(right_actor, &l_decision) {
            Ok(u) => u,
            Err(e) => return Err(GameError::ErrorRight(e)),
        };
        let s = self.payoff(l_decision, r_decision);
        proof {
            assert(s.0 == payoff_left(*self, l_decision, r_decision) && s.1 == payoff_right(
                *self,
                l_decision,
                r_decision,
            ));
        }
        Ok(s)
    }
}

impl Game for PrisonerDilemma {
    /// Scores stay exact: the extreme total over `iters` iterations fits a
    /// `Score`.
    open spec fn round_requires(&self, iters: u32) -> bool {
        iters as int * max_abs_payoff(*self) <= i32::MAX as int
    }

    /// A finished round's scores are the totals of some history of decision
    /// pairs, one pair per iteration, under the payoff matrix.
    open spec fn round_ensures(&self, iters: u32, r: Result<(Score, Score), GameError>) -> bool {
        r matches Ok(s) ==> exists|ds: Seq<(Decision, Decision)>|
            ds.len() == iters as int && s.0 == total_left(*self, ds) && s.1 == total_right(
                *self,
                ds,
            )
    }

    fn round<PL: Player, PR: Player>(
        &self,
        left: &mut PL,
        right: &mut PR,
        iters: u32,
    ) -> (r: Result<(Score, Score), GameError>) {
        let mut med_left = GameMediator::new();
        let mut med_right = GameMediator::new();
        match med_left.initial(left, iters) {
            Ok(u) => u,
            Err(e) => return Err(GameError::ErrorLeft(e)),
        };
        match med_right.initial(right, iters) {
            Ok(u) => u,
            Err(e) => return Err(GameError::ErrorRight(e)),
        };
        let mut score_l: Score = 0;
        let mut score_r: Score = 0;
        let ghost mut ds: Seq<(Decision, Decision)> = Seq::<(Decision, Decision)>::empty();
        let mut i: u32 = 0;
        while i < iters
            invariant
                i <= iters,
                iters as int * max_abs_payoff(*self) <= i32::MAX as int,
                ds.len() == i as int,
                score_l as int == total_left(*self, ds),
                score_r as int == total_right(*self, ds),
            decreases iters - i,
        {
            let res = match self.iteration(&mut med_left, left, &mut med_right, right) {
                Ok(s) => s,
                Err(e) => return Err(e),
            };
            proof {
                let (l, rd) = choose|l: Decision, rd: Decision|
                    res.0 == payoff_left(*self, l, rd) && res.1 == payoff_right(*self, l, rd);
                lemma_total_push(*self, ds, l, rd);
                ds = ds.push((l, rd));
                lemma_total_bound(*self, ds);
                vstd::arithmetic::mul::lemma_mul_inequality(
                    i as int + 1,
                    iters as int,
                    max_abs_payoff(*self),
                );
            }
            score_l = score_l + res.0;
            score_r = score_r + res.1;
            i = i + 1;
        }
        Ok((score_l, score_r))
    }
}

} // verus!
