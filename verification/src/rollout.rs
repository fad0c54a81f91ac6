//! Fitness evaluation: one simulated run of a genome, tick by tick.
//!
//! A rollout plays each move of a genome for a fixed number of ticks and
//! then idles for a tail of further ticks. After each tick it is told the
//! distance to the goals and whether the run is won. It ends when its
//! ticks are spent or the run is won, and its score is the least distance
//! it was told. The rollout decides; the caller steps the world.

use vstd::prelude::*;
use crate::agent::{lemma_within_span, scheduled};
use crate::moves::Move;
use crate::scalar::{minimum, min_of, INFINITY};

verus! {

/// The least of a start value and a run of distances, folded from the front.
pub open spec fn running_least(start: u32, distances: Seq<u32>) -> u32
    decreases distances.len(),
{
    if distances.len() == 0 {
        start
    } else {
        min_of(running_least(start, distances.drop_last()), distances.last())
    }
}

/// The state of one rollout.
#[derive(Clone, Copy, Debug)]
pub struct Rollout {
    tick: usize,
    span: usize,
    budget: usize,
    repeat_move: usize,
    score: u32,
    won: bool,
}

impl Rollout {
    /// The number of ticks played.
    pub closed spec fn tick(self) -> nat {
        self.tick as nat
    }

    /// The number of ticks that the genome's moves span.
    pub closed spec fn span(self) -> nat {
        self.span as nat
    }

    /// The number of ticks after which the rollout ends at the latest.
    pub closed spec fn budget(self) -> nat {
        self.budget as nat
    }

    /// The number of ticks for which each move is held.
    pub closed spec fn repeat(self) -> nat {
        self.repeat_move as nat
    }

    /// The least distance told so far; infinity before the first tick.
    pub closed spec fn least_distance(self) -> u32 {
        self.score
    }

    /// Whether the last tick told of a win.
    pub closed spec fn is_won(self) -> bool {
        self.won
    }

    /// Whether the rollout has ended: it is won or its ticks are spent.
    pub open spec fn is_finished(self) -> bool {
        self.is_won() || self.tick() >= self.budget()
    }

    /// The span is a whole number of moves and lies within the budget, and
    /// the ticks played within both.
    pub open spec fn wf(self) -> bool {
        &&& self.repeat() > 0
        &&& self.span() % self.repeat() == 0
        &&& self.span() <= self.budget()
        &&& self.tick() <= self.budget()
    }

    /// Whether `next` is this rollout one tick later, told the given
    /// distance and win.
    pub open spec fn steps_to(self, next: Rollout, distance: u32, won: bool) -> bool {
        &&& next.tick() == self.tick() + 1
        &&& next.span() == self.span()
        &&& next.budget() == self.budget()
        &&& next.repeat() == self.repeat()
        &&& next.least_distance() == min_of(self.least_distance(), distance)
        &&& next.is_won() == won
    }

    /// A rollout before its first tick, for a genome of `genome_length`
    /// moves held `repeat_move` ticks each and `tail_steps` idle ticks.
    pub fn new(genome_length: usize, repeat_move: usize, tail_steps: usize) -> (rollout: Rollout)
        requires
            repeat_move > 0,
            genome_length * repeat_move + tail_steps <= usize::MAX,
        ensures
            rollout.wf(),
            rollout.tick() == 0,
            rollout.span() == genome_length * repeat_move,
            rollout.budget() == genome_length * repeat_move + tail_steps,
            rollout.repeat() == repeat_move,
            rollout.least_distance() == INFINITY,
            !rollout.is_won(),
    {
        proof {
            vstd::arithmetic::div_mod::lemma_mod_multiples_basic(
                genome_length as int,
                repeat_move as int,
            );
            assert(genome_length * repeat_move >= 0) by (nonlinear_arith);
        }
        let span: usize = genome_length * repeat_move;
        Rollout { tick: 0, span, budget: span + tail_steps, repeat_move, score: INFINITY, won: false }
    }

    /// Tells whether the rollout has ended.
    pub fn finished(&self) -> (r: bool)
        ensures
            r == self.is_finished(),
    {
        self.won || self.tick >= self.budget
    }

    /// The move of the next tick, or `None` once the rollout has ended:
    /// the genome's move scheduled at that tick, the idle move in the tail.
    pub fn next_move(&self, genome: &Vec<Move>) -> (m: Option<Move>)
        requires
            self.wf(),
            genome.len() * self.repeat() == self.span(),
        ensures
            self.is_finished() <==> m is None,
            m matches Some(player_move) ==> player_move == scheduled(
                genome@,
                self.repeat(),
                self.tick(),
            ),
    {
        if self.won || self.tick >= self.budget {
            return None;
        }
        proof {
            lemma_within_span(self.tick as nat, self.repeat_move as nat, genome@.len());
        }
        if self.tick < self.span {
            Some(genome[self.tick / self.repeat_move])
        } else {
            Some(Move::default())
        }
    }

    /// Records the end of a tick: the distance to the goals after it and
    /// whether the run is won.
    pub fn record(&mut self, distance: u32, won: bool)
        requires
            old(self).wf(),
            !old(self).is_finished(),
        ensures
            final(self).wf(),
            old(self).steps_to(*final(self), distance, won),
    {
        self.tick += 1;
        self.score = minimum(self.score, distance);
        self.won = won;
    }

    /// The score: the least distance told so far.
    pub fn score(&self) -> (s: u32)
        ensures
            s == self.least_distance(),
    {
        self.score
    }

    /// Tells whether the last tick told of a win.
    pub fn won(&self) -> (r: bool)
        ensures
            r == self.is_won(),
    {
        self.won
    }

    /// A rollout that is told distances, numbers that are not negative,
    /// scores such a number.
    pub proof fn lemma_score_is_a_distance(distances: Seq<u32>)
        requires
            crate::ranking::distances(distances),
        ensures
            running_least(INFINITY, distances) <= INFINITY,
        decreases distances.len(),
    {
        if distances.len() > 0 {
            let front = distances.drop_last();
            assert forall|i: int| 0 <= i < front.len() implies #[trigger] front[i] <= INFINITY by {
                assert(front[i] == distances[i]);
            }
            Rollout::lemma_score_is_a_distance(front);
            assert(distances.last() == distances[distances.len() - 1]);
        }
    }

    /// The score of a rollout is the least of the distances told to it:
    /// along any run of states from a fresh one, each one tick after the
    /// one before, the last state has played as many ticks as distances
    /// were told and holds the least of them.
    pub proof fn lemma_score_is_least_distance(
        states: Seq<Rollout>,
        distances: Seq<u32>,
        wins: Seq<bool>,
    )
        requires
            states.len() == distances.len() + 1,
            wins.len() == distances.len(),
            states[0].tick() == 0,
            states[0].least_distance() == INFINITY,
            forall|k: int|
                0 <= k < distances.len() ==> (#[trigger] states[k]).steps_to(
                    states[k + 1],
                    distances[k],
                    wins[k],
                ),
        ensures
            states.last().tick() == distances.len(),
            states.last().least_distance() == running_least(INFINITY, distances),
            states.last().budget() == states[0].budget(),
        decreases distances.len(),
    {
        if distances.len() > 0 {
            let n = distances.len() - 1;
            let front = states.drop_last();
            assert forall|k: int| 0 <= k < n implies (#[trigger] front[k]).steps_to(
                front[k + 1],
                distances.drop_last()[k],
                wins.drop_last()[k],
            ) by {
                assert(states[k].steps_to(states[k + 1], distances[k], wins[k]));
            }
            Rollout::lemma_score_is_least_distance(front, distances.drop_last(), wins.drop_last());
            assert(states[n].steps_to(states[n + 1], distances[n], wins[n]));
            assert(front.last() == states[n]);
        }
    }
}

} // verus!
