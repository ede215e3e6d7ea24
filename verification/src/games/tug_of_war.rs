//! A tug of war.
//!
//! Both sides start with the same energy budget. Each iteration, each actor
//! names how much energy it spends; the strictly larger spend scores one
//! point, equal spends score nothing. A side may never spend more than it
//! has left, and its remaining energy strictly decreases by what it spends.

use vstd::prelude::*;

use crate::decimal::{render_u32, parse_u32, spec_parse_u32};
use crate::game::{ActorError, Game, GameError, Player, Score};

verus! {

/// A side's remaining resource budget.
pub type Energy = u32;

/// The left side's points for one pair of spends: 1 when it spent strictly
/// more, else 0.
pub open spec fn points_left(l: int, r: int) -> int {
    if l > r {
        1
    } else {
        0
    }
}

/// The right side's points: the rule is symmetric under swapping sides.
pub open spec fn points_right(l: int, r: int) -> int {
    points_left(r, l)
}

/// The left side's total points over a history of spend pairs.
pub open spec fn total_points_left(spends: Seq<(Energy, Energy)>) -> int
    decreases spends.len(),
{
    if spends.len() == 0 {
        0
    } else {
        total_points_left(spends.drop_last()) + points_left(
            spends.last().0 as int,
            spends.last().1 as int,
        )
    }
}

/// The right side's total points over a history of spend pairs.
pub open spec fn total_points_right(spends: Seq<(Energy, Energy)>) -> int
    decreases spends.len(),
{
    if spends.len() == 0 {
        0
    } else {
        total_points_right(spends.drop_last()) + points_right(
            spends.last().0 as int,
            spends.last().1 as int,
        )
    }
}

/// All the energy the left side has spent over a history.
pub open spec fn spent_left(spends: Seq<(Energy, Energy)>) -> int
    decreases spends.len(),
{
    if spends.len() == 0 {
        0
    } else {
        spent_left(spends.drop_last()) + spends.last().0 as int
    }
}

/// All the energy the right side has spent over a history.
pub open spec fn spent_right(spends: Seq<(Energy, Energy)>) -> int
    decreases spends.len(),
{
    if spends.len() == 0 {
        0
    } else {
        spent_right(spends.drop_last()) + spends.last().1 as int
    }
}

/// Points and spends accumulate one iteration at a time: a history extended
/// by one spend pair is worth exactly the old totals plus that pair's
/// points, and costs exactly the old spends plus that pair's amounts.
pub proof fn lemma_spends_push(spends: Seq<(Energy, Energy)>, l: Energy, r: Energy)
    ensures
        total_points_left(spends.push((l, r))) == total_points_left(spends) + points_left(
            l as int,
            r as int,
        ),
        total_points_right(spends.push((l, r))) == total_points_right(spends) + points_right(
            l as int,
            r as int,
        ),
        spent_left(spends.push((l, r))) == spent_left(spends) + l as int,
        spent_right(spends.push((l, r))) == spent_right(spends) + r as int,
{
    assert(spends.push((l, r)).drop_last() =~= spends);
}

/// The points for one pair of spends: the strictly larger spend scores one
/// point, the other side none; equal spends score nothing.
pub fn round_points(l_spent: Energy, r_spent: Energy) -> (s: (Score, Score))
    ensures
        s.0 == points_left(l_spent as int, r_spent as int),
        s.1 == points_right(l_spent as int, r_spent as int),
{
    if l_spent > r_spent {
        (1, 0)
    } else if l_spent < r_spent {
        (0, 1)
    } else {
        (0, 0)
    }
}

/// The referee's side of the conversation with one tug-of-war actor, and
/// the keeper of that actor's remaining energy.
pub struct GameMediator {
    /// The energy this side has left. Never increases; a spend is only
    /// accepted when it does not exceed this.
    pub energy: Energy,
}

impl GameMediator {
    pub fn new(energy: Energy) -> (m: GameMediator)
        ensures
            m.energy == energy,
    {
        GameMediator { energy }
    }

    /// Setup: tell the actor its starting energy, then the iteration count.
    pub fn initial<P: Player>(&mut self, actor: &mut P, iters: u32) -> (r: Result<(), ActorError>)
        ensures
            final(self).energy == old(self).energy,
    {
        let budget: Energy = self.energy;
        match actor.say(render_u32(budget)) {
            Ok(u) => u,
            Err(e) => return Err(e),
        };
        actor.say(render_u32(iters))
    }

    /// Fold one reply line into the budget. A spend is accepted exactly
    /// when the line is a decimal number no greater than the remaining
    /// energy, and the energy afterwards is the energy before minus the
    /// spend; anything else is a protocol violation that leaves the budget
    /// unchanged.
    pub fn spend_line(&mut self, line: &str) -> (r: Result<Energy, ActorError>)
        ensures
            match r {
                Ok(spent) => spec_parse_u32(line@) == Some(spent) && spent <= old(self).energy
                    && final(self).energy == old(self).energy - spent,
                Err(e) => final(self).energy == old(self).energy && e
                    == ActorError::ProtocolViolation && (match spec_parse_u32(line@) {
                    Some(v) => v > old(self).energy,
                    None => true,
                }),
            },
    {
        let spent: Energy = match parse_u32(line) {
            Some(v) => v,
            None => return Err(ActorError::ProtocolViolation),
        };
        if spent > self.energy {
            return Err(ActorError::ProtocolViolation);
        }
        self.energy = self.energy - spent;
        Ok(spent)
    }

    /// Ask the actor for its spend this iteration and deduct it. Whatever
    /// the actor answers, the budget never grows, and on success it shrinks
    /// by exactly the accepted spend.
    pub fn pull<P: Player>(&mut self, actor: &mut P) -> (r: Result<Energy, ActorError>)
        ensures
            match r {
                Ok(spent) => spent <= old(self).energy && final(self).energy == old(self).energy
                    - spent,
                Err(_) => final(self).energy == old(self).energy,
            },
    {
        let line = match actor.ask() {
            Ok(l) => l,
            Err(e) => return Err(e),
        };
        self.spend_line(line.as_str())
    }

    /// Tell the actor how much the opponent spent.
    pub fn notify<P: Player>(&mut self, actor: &mut P, another_spent: Energy) -> (r: Result<
        (),
        ActorError,
    >)
        ensures
            final(self).energy == old(self).energy,
    {
        actor.say(render_u32(another_spent))
    }
}

/// The configuration of a tug of war: the starting energy budget, the same
/// for both sides.
#[derive(Clone, Copy, Debug)]
pub struct TugOfWar {
    pub energy: Energy,
}

impl TugOfWar {
    pub fn new(energy: Energy) -> (g: TugOfWar)
        ensures
            g.energy == energy,
    {
        TugOfWar { energy }
    }

    /// The standard budget.
    pub fn default() -> (g: TugOfWar)
        ensures
            g.energy == 100,
    {
        Self::new(100)
    }

    /// One iteration: ask both actors for a spend, tell each the other's,
    /// and score the pair. A failure is attributed to the actor whose
    /// exchange broke; energy budgets never grow, and on success each
    /// shrinks by exactly what its side spent.
    pub fn iteration<PL: Player, PR: Player>(
        &self,
        left: &mut GameMediator,
        left_actor: &mut PL,
        right: &mut GameMediator,
        right_actor: &mut PR,
    ) -> (r: Result<(Score, Score), GameError>)
        ensures
            match r {
                Ok(s) => exists|ls: Energy, rs: Energy|
                    ls <= old(left).energy && final(left).energy == old(left).energy - ls && rs
                        <= old(right).energy && final(right).energy == old(right).energy - rs
                        && s.0 == points_left(ls as int, rs as int) && s.1 == points_right(
                        ls as int,
                        rs as int,
                    ),
                Err(_) => final(left).energy <= old(left).energy && final(right).energy <= old(
                    right,
                ).energy,
            },
    {
        let l_spent: Energy = match left.pull(left_actor) {
            Ok(v) => v,
            Err(e) => return Err(GameError::ErrorLeft(e)),
        };
        let r_spent: Energy = match right.pull(right_actor) {
            Ok(v) => v,
            Err(e) => return Err(GameError::ErrorRight(e)),
        };
        match left.notify(left_actor, r_spent) {
            Ok(u) => u,
            Err(e) => return Err(GameError::ErrorLeft(e)),
        };
        match right.notify(right_actor, l_spent) {
            Ok(u) => u,
            Err(e) => return Err(GameError::ErrorRight(e)),
        };
        let s = round_points(l_spent, r_spent);
        proof {
            assert(l_spent <= old(left).energy && final(left).energy == old(left).energy - l_spent
                && r_spent <= old(right).energy && final(right).energy == old(right).energy
                - r_spent && s.0 == points_left(l_spent as int, r_spent as int) && s.1
                == points_right(l_spent as int, r_spent as int));
        }
        Ok(s)
    }
}

impl Game for TugOfWar {
    /// Point totals stay exact: one point at most per iteration must fit a
    /// `Score`.
    open spec fn round_requires(&self, iters: u32) -> bool {
        iters as int <= i32::MAX as int
    }

    /// A finished round's scores are the point totals of some history of
    /// spend pairs, one per iteration, in which neither side ever spent
    /// more than the starting budget in all.
    open spec fn round_ensures(&self, iters: u32, r: Result<(Score, Score), GameError>) -> bool {
        r matches Ok(s) ==> exists|spends: Seq<(Energy, Energy)>|
            spends.len() == iters as int && spent_left(spends) <= self.energy as int
                && spent_right(spends) <= self.energy as int && s.0 == total_points_left(spends)
                && s.1 == total_points_right(spends)
    }

    fn round<PL: Player, PR: Player>(
        &self,
        left: &mut PL,
        right: &mut PR,
        iters: u32,
    ) -> (r: Result<(Score, Score), GameError>) {
        let mut med_left = GameMediator::new(self.energy);
        let mut med_right = GameMediator::new(self.energy);
        match med_left.initial(left, iters) {
            Ok(u) => u,
            Err(e) => return Err(GameError::ErrorLeft(e)),
        };
        match med_right.initial(right, iters) {
            Ok(u) => u,
            Err(e) => return Err(GameError::ErrorRight(e)),
        };
        let mut score_l: Score = 0;
        let mut score_r: Score = 0;
        let ghost mut spends: Seq<(Energy, Energy)> = Seq::<(Energy, Energy)>::empty();
        let mut i: u32 = 0;
        while i < iters
            invariant
                i <= iters,
                iters as int <= i32::MAX as int,
                spends.len() == i as int,
                med_left.energy as int == self.energy as int - spent_left(spends),
                med_right.energy as int == self.energy as int - spent_right(spends),
                score_l as int == total_points_left(spends),
                score_r as int == total_points_right(spends),
                0 <= score_l as int <= i as int,
                0 <= score_r as int <= i as int,
            decreases iters - i,
        {
            let ghost pre_left = med_left;
            let ghost pre_right = med_right;
            let res = match self.iteration(&mut med_left, left, &mut med_right, right) {
                Ok(s) => s,
                Err(e) => return Err(e),
            };
            proof {
                let (ls, rs) = choose|ls: Energy, rs: Energy|
                    ls <= pre_left.energy && med_left.energy == pre_left.energy - ls && rs
                        <= pre_right.energy && med_right.energy == pre_right.energy - rs && res.0
                        == points_left(ls as int, rs as int) && res.1 == points_right(
                        ls as int,
                        rs as int,
                    );
                lemma_spends_push(spends, ls, rs);
                spends = spends.push((ls, rs));
            }
            score_l = score_l + res.0;
            score_r = score_r + res.1;
            i = i + 1;
        }
        Ok((score_l, score_r))
    }
}

} // verus!
