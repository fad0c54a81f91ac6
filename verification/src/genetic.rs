//! The evolutionary search: generations of scored genomes.
//!
//! A generation holds genomes with their scores; a lower score is better.
//! From one generation the search reports its best genome as a candidate
//! agent and builds the next: it may carry the best individual over
//! unchanged, and fills the rest with children bred from two parents.

use vstd::prelude::*;
use crate::agent::{Agent, GeneticAgent};
use crate::genome::{
    copy_genome,
    crossed,
    mutated,
    random_crossover,
    random_mutate,
    unit_draws,
};
use crate::locomotion::reached;
use crate::moves::Move;
use crate::ranking::{
    all_numbers,
    first_least,
    last_greatest,
    leftmost,
    lemma_first_least_not_above_first,
    rightmost,
};
use crate::rollout::Rollout;
use crate::scalar::{lt, ONE};

verus! {

/// The settings of the evolutionary search.
#[derive(Clone, Copy, Debug, PartialEq, Eq, Structural)]
pub struct GeneticAlgorithm {
    /// Ticks of one rollout.
    pub number_of_steps: usize,
    /// Individuals of one generation.
    pub number_of_agents: usize,
    /// Ticks for which each move of a genome is held.
    pub repeat_move: usize,
    /// Probability, as a pattern, with which a switch of a gene is redrawn.
    pub mutation_rate: u32,
    /// Whether the best individual is carried over unchanged.
    pub keep_best: bool,
}

impl Default for GeneticAlgorithm {
    fn default() -> (algorithm: GeneticAlgorithm)
        ensures
            algorithm == GeneticAlgorithm::standard(),
    {
        GeneticAlgorithm {
            number_of_steps: 1000,
            number_of_agents: 1000,
            repeat_move: 20,
            mutation_rate: 0x3dcc_cccd,
            keep_best: false,
        }
    }
}

/// The closed set of searches.
#[derive(Clone, Copy, Debug, PartialEq, Eq, Structural)]
pub enum Algorithm {
    Genetic(GeneticAlgorithm),
}

impl Default for Algorithm {
    fn default() -> (algorithm: Algorithm)
        ensures
            algorithm == Algorithm::Genetic(GeneticAlgorithm::standard()),
    {
        Algorithm::Genetic(GeneticAlgorithm::default())
    }
}

/// A scored agent, as the search reports it: the score first.
pub type Message = (u32, Agent);

/// A population of genomes, each with its score.
#[derive(Debug)]
pub struct Generation {
    scores: Vec<u32>,
    genomes: Vec<Vec<Move>>,
}

impl GeneticAlgorithm {
    /// The settings that a search starts from: a thousand agents over a
    /// thousand ticks, moves held for twenty ticks, a mutation rate of one
    /// tenth, no elitism.
    pub open spec fn standard() -> GeneticAlgorithm {
        GeneticAlgorithm {
            number_of_steps: 1000,
            number_of_agents: 1000,
            repeat_move: 20,
            mutation_rate: 0x3dcc_cccd,
            keep_best: false,
        }
    }

    /// The ranges that the settings are meant for: one to a hundred
    /// thousand ticks, ten to a thousand agents, moves held for one to a
    /// hundred ticks, a mutation rate from zero to one.
    pub open spec fn within_limits(self) -> bool {
        &&& 1 <= self.number_of_steps <= 100_000
        &&& 10 <= self.number_of_agents <= 1000
        &&& 1 <= self.repeat_move <= 100
        &&& self.mutation_rate <= ONE
    }

    /// Tells whether the settings lie in the ranges they are meant for. A
    /// search with such settings can start, and each of its generations
    /// holds two different parents.
    pub fn in_range(&self) -> (r: bool)
        ensures
            r == self.within_limits(),
            r ==> self.repeat_move > 0 && self.number_of_agents >= 2,
    {
        1 <= self.number_of_steps && self.number_of_steps <= 100_000 && 10 <= self.number_of_agents
            && self.number_of_agents <= 1000 && 1 <= self.repeat_move && self.repeat_move <= 100
            && self.mutation_rate <= ONE
    }

    /// The number of moves of a genome: one per `repeat_move` ticks.
    pub open spec fn genome_len(self) -> nat {
        (self.number_of_steps / self.repeat_move) as nat
    }

    /// The number of idle ticks that end a rollout.
    pub open spec fn tail_len(self) -> nat {
        (self.number_of_steps % self.repeat_move) as nat
    }

    /// The number of moves of a genome.
    pub fn genome_length(&self) -> (length: usize)
        requires
            self.repeat_move > 0,
        ensures
            length == self.genome_len(),
            length * self.repeat_move + self.tail_len() == self.number_of_steps,
    {
        proof {
            self.lemma_genome_fits();
        }
        self.number_of_steps / self.repeat_move
    }

    /// The moves of a genome, held for `repeat_move` ticks each, span no
    /// more than the ticks of a rollout.
    pub proof fn lemma_genome_fits(self)
        requires
            self.repeat_move > 0,
        ensures
            self.genome_len() * self.repeat_move + self.tail_len() == self.number_of_steps,
            self.genome_len() * self.repeat_move <= usize::MAX,
    {
        vstd::arithmetic::div_mod::lemma_fundamental_div_mod(
            self.number_of_steps as int,
            self.repeat_move as int,
        );
        let moves = self.number_of_steps / self.repeat_move;
        assert(moves * self.repeat_move == self.repeat_move * moves) by (nonlinear_arith);
    }

    /// The number of idle ticks that end a rollout.
    pub fn tail_steps(&self) -> (tail: usize)
        requires
            self.repeat_move > 0,
        ensures
            tail == self.tail_len(),
    {
        self.number_of_steps % self.repeat_move
    }

    /// A rollout for a genome of this search: it spends `number_of_steps`
    /// ticks unless it is won before.
    pub fn rollout(&self) -> (rollout: Rollout)
        requires
            self.repeat_move > 0,
        ensures
            rollout.wf(),
            rollout.tick() == 0,
            rollout.span() == self.genome_len() * self.repeat_move,
            rollout.budget() == self.number_of_steps,
            rollout.repeat() == self.repeat_move,
            rollout.least_distance() == crate::scalar::INFINITY,
            !rollout.is_won(),
    {
        let length = self.genome_length();
        let tail = self.tail_steps();
        Rollout::new(length, self.repeat_move, tail)
    }

    /// The candidate that a generation reports: its best score with an
    /// agent at the start of its best genome. `None` for an empty
    /// generation.
    pub fn champion(&self, generation: &Generation) -> (message: Option<Message>)
        requires
            generation.wf(),
            self.repeat_move > 0,
            forall|i: int|
                0 <= i < generation.genomes().len() ==> (#[trigger] generation.genomes()[i]).len()
                    * self.repeat_move <= usize::MAX,
        ensures
            generation.scores().len() == 0 <==> message is None,
            message matches Some((score, Agent::Genetic(agent))) ==> {
                &&& score == generation.best_score()
                &&& agent.wf()
                &&& agent.moves() == generation.best_genome()
                &&& agent.repeat() == self.repeat_move
                &&& agent.cursor() == 0
            },
            message matches Some((_, agent)) ==> agent is Genetic,
    {
        match generation.best() {
            None => None,
            Some(best) => {
                let moves = generation.genome(best);
                let agent = GeneticAgent::new(moves, self.repeat_move);
                Some((generation.score(best), Agent::Genetic(agent)))
            },
        }
    }

    /// The start of the generation that follows: the best individual of
    /// this one if the best is kept and there is one, else nothing.
    pub fn seed(&self, generation: &Generation) -> (next: Generation)
        requires
            generation.wf(),
        ensures
            next.wf(),
            self.keep_best && generation.scores().len() > 0 ==> {
                &&& next.scores() == seq![generation.best_score()]
                &&& next.genomes() == seq![generation.best_genome()]
            },
            !self.keep_best || generation.scores().len() == 0 ==> {
                &&& next.scores().len() == 0
                &&& next.genomes().len() == 0
            },
    {
        let mut next = Generation::new();
        if self.keep_best {
            if let Some(best) = generation.best() {
                next.insert(generation.score(best), generation.genome(best));
            }
        }
        next
    }

    /// The number of individuals that a generation in the making still
    /// lacks.
    pub fn vacancies(&self, next: &Generation) -> (count: usize)
        requires
            next.wf(),
        ensures
            count == if next.scores().len() <= self.number_of_agents {
                self.number_of_agents - next.scores().len()
            } else {
                0
            },
    {
        if next.len() <= self.number_of_agents {
            self.number_of_agents - next.len()
        } else {
            0
        }
    }

    /// Breeds a child of two parents of one length: a uniform crossover,
    /// then a mutation at this search's rate by the given draws from the
    /// unit interval, one draw per switch. At rate zero the child is the
    /// crossing itself.
    pub fn breed(
        &self,
        rng: &mut rand::rngs::StdRng,
        generation: &Generation,
        first: usize,
        second: usize,
        draws: &Vec<u32>,
    ) -> (child: Vec<Move>)
        requires
            generation.wf(),
            first < generation.genomes().len(),
            second < generation.genomes().len(),
            generation.genomes()[first as int].len() == generation.genomes()[second as int].len(),
            draws.len() == 3 * generation.genomes()[first as int].len(),
            unit_draws(draws@),
        ensures
            child.len() == generation.genomes()[first as int].len(),
            self.mutation_rate == 0 ==> exists|picks: Seq<bool>|
                picks.len() == child.len() && child@ == #[trigger] crossed(
                    generation.genomes()[first as int],
                    generation.genomes()[second as int],
                    picks,
                ),
            exists|picks: Seq<bool>, fresh: Seq<bool>|
                picks.len() == child.len() && fresh.len() == 3 * child.len() && child@
                    == #[trigger] mutated(
                    crossed(
                        generation.genomes()[first as int],
                        generation.genomes()[second as int],
                        picks,
                    ),
                    self.mutation_rate,
                    draws@,
                    fresh,
                ),
    {
        let ghost a = generation.genomes()[first as int];
        let ghost b = generation.genomes()[second as int];
        let crossing = random_crossover(
            rng,
            generation.genome_ref(first),
            generation.genome_ref(second),
        );
        let child = random_mutate(rng, &crossing, self.mutation_rate, draws);
        proof {
            let picks = choose|picks: Seq<bool>|
                picks.len() == a.len() && crossing@ == #[trigger] crossed(a, b, picks);
            let fresh = choose|fresh: Seq<bool>|
                fresh.len() == 3 * crossing.len() && child@ == #[trigger] mutated(
                    crossing@,
                    self.mutation_rate,
                    draws@,
                    fresh,
                );
            assert(child@ == mutated(crossed(a, b, picks), self.mutation_rate, draws@, fresh));
        }
        child
    }
}

impl Generation {
    /// The scores, in the order in which the individuals were inserted.
    pub closed spec fn scores(self) -> Seq<u32> {
        self.scores@
    }

    /// The genomes, in the same order.
    pub closed spec fn genomes(self) -> Seq<Seq<Move>> {
        Seq::new(self.genomes@.len(), |i: int| self.genomes@[i]@)
    }

    /// Every genome has its score.
    pub open spec fn wf(self) -> bool {
        self.scores().len() == self.genomes().len()
    }

    /// The index of the best individual: the first of least score.
    pub open spec fn best_index(self) -> int {
        first_least(self.scores())
    }

    /// The least score.
    pub open spec fn best_score(self) -> u32 {
        self.scores()[self.best_index()]
    }

    /// The genome of the best individual.
    pub open spec fn best_genome(self) -> Seq<Move> {
        self.genomes()[self.best_index()]
    }

    /// The greatest score: that of the last individual of greatest score.
    pub open spec fn worst(self) -> u32 {
        self.scores()[last_greatest(self.scores())]
    }

    /// An empty generation.
    pub fn new() -> (generation: Generation)
        ensures
            generation.wf(),
            generation.scores().len() == 0,
            generation.genomes().len() == 0,
    {
        Generation { scores: Vec::new(), genomes: Vec::new() }
    }

    /// The number of individuals.
    pub fn len(&self) -> (n: usize)
        requires
            self.wf(),
        ensures
            n == self.scores().len(),
            n == self.genomes().len(),
    {
        self.scores.len()
    }

    /// Adds an individual at the end.
    pub fn insert(&mut self, score: u32, genome: Vec<Move>)
        requires
            old(self).wf(),
        ensures
            final(self).wf(),
            final(self).scores() == old(self).scores().push(score),
            final(self).genomes() == old(self).genomes().push(genome@),
    {
        self.scores.push(score);
        self.genomes.push(genome);
        assert(self.genomes() =~= old(self).genomes().push(genome@));
    }

    /// The score of individual `i`.
    pub fn score(&self, i: usize) -> (score: u32)
        requires
            self.wf(),
            i < self.scores().len(),
        ensures
            score == self.scores()[i as int],
    {
        self.scores[i]
    }

    /// The genome of individual `i`, copied out.
    pub fn genome(&self, i: usize) -> (genome: Vec<Move>)
        requires
            self.wf(),
            i < self.genomes().len(),
        ensures
            genome@ == self.genomes()[i as int],
    {
        copy_genome(&self.genomes[i])
    }

    /// The genome of individual `i`.
    fn genome_ref(&self, i: usize) -> (genome: &Vec<Move>)
        requires
            self.wf(),
            i < self.genomes().len(),
        ensures
            genome@ == self.genomes()[i as int],
    {
        &self.genomes[i]
    }

    /// The index of the best individual; `None` for an empty generation.
    pub fn best(&self) -> (best: Option<usize>)
        requires
            self.wf(),
        ensures
            self.scores().len() == 0 <==> best is None,
            best matches Some(i) ==> i == self.best_index() && i < self.scores().len(),
            best is Some && all_numbers(self.scores()) ==> forall|i: int|
                0 <= i < self.scores().len() ==> !lt(#[trigger] self.scores()[i], self.best_score()),
    {
        leftmost(self.scores.as_slice())
    }

    /// The greatest score; `None` for an empty generation.
    pub fn worst_score(&self) -> (worst: Option<u32>)
        requires
            self.wf(),
        ensures
            self.scores().len() == 0 <==> worst is None,
            worst matches Some(score) ==> score == self.worst(),
            worst is Some && all_numbers(self.scores()) ==> forall|i: int|
                0 <= i < self.scores().len() ==> !lt(self.worst(), #[trigger] self.scores()[i]),
    {
        match rightmost(self.scores.as_slice()) {
            None => None,
            Some(i) => Some(self.scores[i]),
        }
    }

    /// Elitism never worsens the best score: where a generation starts
    /// with the best individual of the one before, its best score is not
    /// above that generation's, and is a goal reached if that one's was.
    pub proof fn lemma_elitism_never_worsens(self, next: Generation)
        requires
            self.wf(),
            next.wf(),
            self.scores().len() > 0,
            next.scores().len() > 0,
            next.scores()[0] == self.best_score(),
        ensures
            !lt(self.best_score(), next.best_score()),
            reached(Some(self.best_score())) ==> reached(Some(next.best_score())),
    {
        lemma_first_least_not_above_first(next.scores());
    }
}

} // verus!
