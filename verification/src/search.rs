//! The evolutionary search as a state machine.
//!
//! The search itself never steps a world. It asks its driver for one thing
//! at a time: the score of a genome, two parents for the next child, or
//! leave to report the best individual. The driver answers and the search
//! moves on. It founds a generation of random genomes, then forever
//! reports the best individual and breeds the next generation, until a
//! report is refused.

use vstd::prelude::*;
use crate::agent::Agent;
use crate::genetic::{GeneticAlgorithm, Generation, Message};
use crate::genome::{crossed, mutated, random_genome, unit_draws};
use crate::locomotion::reached;
use crate::moves::Move;
use crate::scalar::lt;
use crate::training::send;

verus! {

/// What the search waits for.
#[derive(Clone, Copy, Debug, PartialEq, Eq, Structural)]
pub enum Request {
    /// The score of the pending genome; answered by [`Search::scored`].
    Evaluate,
    /// Two parents for the next child; answered by [`Search::bred`].
    Select,
    /// Leave to report the best individual; answered by [`Search::report`].
    Report,
    /// Nothing: a report was refused and the search is over.
    Stop,
}

/// Whether every genome has the given length.
pub open spec fn uniform(genomes: Seq<Seq<Move>>, length: nat) -> bool {
    forall|i: int| 0 <= i < genomes.len() ==> (#[trigger] genomes[i]).len() == length
}

/// The state of a search.
pub struct Search {
    algorithm: GeneticAlgorithm,
    generation: Generation,
    next: Generation,
    pending: Vec<Move>,
    founding: bool,
    request: Request,
}

impl Search {
    /// The settings of the search.
    pub closed spec fn algorithm(self) -> GeneticAlgorithm {
        self.algorithm
    }

    /// The current generation: the one being founded, or the last one
    /// completed.
    pub closed spec fn generation(self) -> Generation {
        self.generation
    }

    /// The generation in the making, while children are bred.
    pub closed spec fn next(self) -> Generation {
        self.next
    }

    /// The genome whose score is awaited.
    pub closed spec fn pending(self) -> Seq<Move> {
        self.pending@
    }

    /// Whether the first generation is still being founded.
    pub closed spec fn is_founding(self) -> bool {
        self.founding
    }

    /// What the search waits for.
    pub closed spec fn awaits(self) -> Request {
        self.request
    }

    /// The number of individuals of a complete generation.
    pub open spec fn size(self) -> nat {
        self.algorithm().number_of_agents as nat
    }

    /// The invariant of the search. Genomes all have the length that the
    /// settings give, the pending one while its score is awaited. While
    /// founding, the generation is short of its size and a founder is
    /// pending. Afterwards the generation is complete; while children are
    /// bred the next generation is short of its size and, where the best
    /// is kept, starts with the best individual.
    pub open spec fn wf(self) -> bool {
        &&& self.algorithm().repeat_move > 0
        &&& self.size() > 0
        &&& self.generation().wf()
        &&& self.next().wf()
        &&& uniform(self.generation().genomes(), self.algorithm().genome_len())
        &&& uniform(self.next().genomes(), self.algorithm().genome_len())
        &&& self.awaits() == Request::Evaluate ==> self.pending().len()
            == self.algorithm().genome_len()
        &&& self.is_founding() ==> {
            &&& self.awaits() == Request::Evaluate
            &&& self.generation().scores().len() < self.size()
            &&& self.next().scores().len() == 0
        }
        &&& !self.is_founding() ==> self.generation().scores().len() == self.size()
        &&& !self.is_founding() && self.awaits() == Request::Report ==> self.next().scores().len()
            == 0
        &&& !self.is_founding() && (self.awaits() == Request::Select || self.awaits()
            == Request::Evaluate) ==> {
            &&& self.next().scores().len() < self.size()
            &&& self.algorithm().keep_best ==> {
                &&& self.next().scores().len() > 0
                &&& self.next().scores()[0] == self.generation().best_score()
                &&& self.next().genomes()[0] == self.generation().best_genome()
            }
        }
    }

    /// Starts a search: the first founder is drawn and awaits its score.
    pub fn start(algorithm: GeneticAlgorithm, rng: &mut rand::rngs::StdRng) -> (search: Search)
        requires
            algorithm.repeat_move > 0,
            algorithm.number_of_agents > 0,
        ensures
            search.wf(),
            search.algorithm() == algorithm,
            search.is_founding(),
            search.awaits() == Request::Evaluate,
            search.generation().scores().len() == 0,
    {
        let length = algorithm.genome_length();
        let pending = random_genome(rng, length);
        Search {
            algorithm,
            generation: Generation::new(),
            next: Generation::new(),
            pending,
            founding: true,
            request: Request::Evaluate,
        }
    }

    /// What the search waits for.
    pub fn request(&self) -> (request: Request)
        ensures
            request == self.awaits(),
    {
        self.request
    }

    /// The genome whose score is awaited.
    pub fn pending_genome(&self) -> (genome: &Vec<Move>)
        ensures
            genome@ == self.pending(),
    {
        &self.pending
    }

    /// The current generation.
    pub fn current(&self) -> (generation: &Generation)
        ensures
            *generation == self.generation(),
    {
        &self.generation
    }

    /// Answers [`Request::Evaluate`] with the score of the pending genome.
    ///
    /// The genome joins the generation that is being filled. A founding
    /// generation that is still short gets a new random founder to
    /// evaluate; a next generation that is still short asks for parents.
    /// A generation that has reached its size becomes the current one and
    /// asks to be reported. Where the best is kept, the best score of the
    /// new generation is not above the old one's, and once a best score
    /// counts as a goal reached every later one does.
    pub fn scored(&mut self, rng: &mut rand::rngs::StdRng, score: u32) -> (request: Request)
        requires
            old(self).wf(),
            old(self).awaits() == Request::Evaluate,
        ensures
            final(self).wf(),
            request == final(self).awaits(),
            final(self).algorithm() == old(self).algorithm(),
            old(self).is_founding() ==> {
                &&& final(self).generation().scores() == old(self).generation().scores().push(score)
                &&& final(self).generation().genomes() == old(self).generation().genomes().push(
                    old(self).pending(),
                )
                &&& final(self).next().scores().len() == 0
                &&& final(self).is_founding() == (final(self).generation().scores().len()
                    < old(self).size())
                &&& request == if final(self).is_founding() {
                    Request::Evaluate
                } else {
                    Request::Report
                }
            },
            !old(self).is_founding() && old(self).next().scores().len() + 1 < old(self).size() ==> {
                &&& final(self).generation() == old(self).generation()
                &&& final(self).next().scores() == old(self).next().scores().push(score)
                &&& final(self).next().genomes() == old(self).next().genomes().push(
                    old(self).pending(),
                )
                &&& !final(self).is_founding()
                &&& request == Request::Select
            },
            !old(self).is_founding() && old(self).next().scores().len() + 1 == old(self).size()
                ==> {
                &&& final(self).generation().scores() == old(self).next().scores().push(score)
                &&& final(self).generation().genomes() == old(self).next().genomes().push(
                    old(self).pending(),
                )
                &&& final(self).next().scores().len() == 0
                &&& !final(self).is_founding()
                &&& request == Request::Report
                &&& old(self).algorithm().keep_best ==> !lt(
                    old(self).generation().best_score(),
                    final(self).generation().best_score(),
                )
                &&& old(self).algorithm().keep_best && reached(
                    Some(old(self).generation().best_score()),
                ) ==> reached(Some(final(self).generation().best_score()))
            },
    {
        let mut genome: Vec<Move> = Vec::new();
        core::mem::swap(&mut self.pending, &mut genome);
        if self.founding {
            self.generation.insert(score, genome);
            if self.generation.len() < self.algorithm.number_of_agents {
                self.pending = random_genome(rng, self.algorithm.genome_length());
                self.request = Request::Evaluate;
            } else {
                self.founding = false;
                self.request = Request::Report;
            }
        } else {
            self.next.insert(score, genome);
            if self.next.len() < self.algorithm.number_of_agents {
                self.request = Request::Select;
            } else {
                proof {
                    if self.algorithm.keep_best {
                        old(self).generation().lemma_elitism_never_worsens(self.next);
                    }
                }
                core::mem::swap(&mut self.generation, &mut self.next);
                self.next = Generation::new();
                self.request = Request::Report;
            }
        }
        self.request
    }

    /// Whether `after` is this search once its report was taken or
    /// refused.
    ///
    /// A refused report ends the search. After one that was taken the next
    /// generation starts, with the best individual where the best is kept,
    /// and the search asks for parents; if that start already fills the
    /// generation, the search asks to report again.
    pub open spec fn reports_to(self, after: Search, taken: bool) -> bool {
        &&& after.algorithm() == self.algorithm()
        &&& after.generation() == self.generation()
        &&& !after.is_founding()
        &&& after.awaits() == if !taken {
            Request::Stop
        } else if self.size() == 1 && self.algorithm().keep_best {
            Request::Report
        } else {
            Request::Select
        }
        &&& after.awaits() == Request::Select ==> after.next().scores() == if self.algorithm().keep_best {
            seq![self.generation().best_score()]
        } else {
            Seq::empty()
        }
        &&& after.awaits() == Request::Select ==> after.next().genomes() == if self.algorithm().keep_best {
            seq![self.generation().best_genome()]
        } else {
            Seq::empty()
        }
        &&& after.awaits() != Request::Select ==> after.next() == self.next()
    }

    /// The candidate that a report sends: the best score of the current
    /// generation with an agent at the start of its best genome.
    pub fn candidate(&self) -> (message: Message)
        requires
            self.wf(),
            !self.is_founding(),
        ensures
            message.0 == self.generation().best_score(),
            message.1 matches Agent::Genetic(agent) && {
                &&& agent.wf()
                &&& agent.moves() == self.generation().best_genome()
                &&& agent.repeat() == self.algorithm().repeat_move
                &&& agent.cursor() == 0
            },
    {
        proof {
            self.algorithm.lemma_genome_fits();
        }
        self.algorithm.champion(&self.generation).unwrap()
    }

    /// Answers [`Request::Report`] once the channel has taken or refused
    /// the candidate; see [`Self::reports_to`].
    pub fn reported(&mut self, taken: bool) -> (request: Request)
        requires
            old(self).wf(),
            old(self).awaits() == Request::Report,
        ensures
            final(self).wf(),
            request == final(self).awaits(),
            old(self).reports_to(*final(self), taken),
    {
        if !taken {
            self.request = Request::Stop;
            return Request::Stop;
        }
        proof {
            crate::ranking::lemma_folds_in_range(self.generation.scores());
        }
        let next = self.algorithm.seed(&self.generation);
        if self.algorithm.vacancies(&next) == 0 {
            self.request = Request::Report;
        } else {
            self.next = next;
            self.request = Request::Select;
            proof {
                if !self.algorithm.keep_best {
                    assert(self.next.scores() =~= Seq::empty());
                    assert(self.next.genomes() =~= Seq::empty());
                }
            }
        }
        self.request
    }

    /// Answers [`Request::Report`]: sends [`Self::candidate`] into the
    /// channel and goes on as [`Self::reported`] says, whether the channel
    /// took the candidate or refused it.
    pub fn report(&mut self, sender: &crossbeam::channel::Sender<Message>) -> (request: Request)
        requires
            old(self).wf(),
            old(self).awaits() == Request::Report,
        ensures
            final(self).wf(),
            request == final(self).awaits(),
            old(self).reports_to(*final(self), true) || old(self).reports_to(*final(self), false),
    {
        let message = self.candidate();
        let taken = send(sender, message);
        self.reported(taken)
    }

    /// Answers [`Request::Select`] with two different individuals of the
    /// current generation and one draw from the unit interval per switch
    /// of a genome: their child is bred and awaits its score. At rate zero
    /// the child is a crossing of the two.
    pub fn bred(
        &mut self,
        rng: &mut rand::rngs::StdRng,
        first: usize,
        second: usize,
        draws: &Vec<u32>,
    ) -> (request: Request)
        requires
            old(self).wf(),
            old(self).awaits() == Request::Select,
            first < old(self).size(),
            second < old(self).size(),
            first != second,
            draws.len() == 3 * old(self).algorithm().genome_len(),
            unit_draws(draws@),
        ensures
            final(self).wf(),
            request == Request::Evaluate,
            final(self).awaits() == Request::Evaluate,
            final(self).algorithm() == old(self).algorithm(),
            final(self).generation() == old(self).generation(),
            final(self).next() == old(self).next(),
            !final(self).is_founding(),
            final(self).pending().len() == old(self).algorithm().genome_len(),
            exists|picks: Seq<bool>, fresh: Seq<bool>|
                picks.len() == old(self).algorithm().genome_len() && fresh.len() == draws.len()
                    && final(self).pending() == #[trigger] mutated(
                    crossed(
                        old(self).generation().genomes()[first as int],
                        old(self).generation().genomes()[second as int],
                        picks,
                    ),
                    old(self).algorithm().mutation_rate,
                    draws@,
                    fresh,
                ),
            old(self).algorithm().mutation_rate == 0 ==> exists|picks: Seq<bool>|
                picks.len() == old(self).algorithm().genome_len() && final(self).pending()
                    == #[trigger] crossed(
                    old(self).generation().genomes()[first as int],
                    old(self).generation().genomes()[second as int],
                    picks,
                ),
    {
        self.pending = self.algorithm.breed(rng, &self.generation, first, second, draws);
        self.request = Request::Evaluate;
        Request::Evaluate
    }
}

} // verus!
