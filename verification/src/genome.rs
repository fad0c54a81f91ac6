//! Move sequences and the random operators that make and vary them.
//!
//! A genome is a sequence of moves, one per macro-step of a rollout. New
//! genomes are drawn at random, crossed gene by gene from two parents of
//! one length, and mutated switch by switch. Crossover and mutation each
//! come in two forms: one draws from the random generator, its twin takes
//! the drawn values as arguments and fixes its result exactly.

use vstd::prelude::*;
use crate::moves::Move;
use crate::scalar::{is_unit, less, lt, ONE};

verus! {

/// `rand::rngs::StdRng`, the standard seeded random generator; opaque.
#[verifier::external_type_specification]
#[verifier::external_body]
pub struct ExStdRng(rand::rngs::StdRng);

/// Calls `rand::Rng::gen::<bool>` on a seeded generator, which computes the
/// next word of its stream and never reads the machine's random source.
/// Nothing is claimed of the value drawn.
#[verifier::external_body]
fn random_bool(rng: &mut rand::rngs::StdRng) -> (value: bool) {
    rand::Rng::gen::<bool>(rng)
}

/// The child that takes gene `i` from the first parent where `picks[i]`
/// holds and from the second where it does not.
pub open spec fn crossed(first: Seq<Move>, second: Seq<Move>, picks: Seq<bool>) -> Seq<Move> {
    Seq::new(
        first.len(),
        |i: int|
            if picks[i] {
                first[i]
            } else {
                second[i]
            },
    )
}

/// Whether the draw at `slot` falls below the mutation rate.
pub open spec fn hit(rate: u32, draws: Seq<u32>, slot: int) -> bool {
    lt(draws[slot], rate)
}

/// Gene `i` after mutation: each of its three switches, in the order left,
/// right, up, has a draw and a fresh value of its own, at slots `3 * i`,
/// `3 * i + 1` and `3 * i + 2`, and takes the fresh value where the draw
/// falls below the rate.
pub open spec fn mutated_gene(gene: Move, rate: u32, draws: Seq<u32>, fresh: Seq<bool>, i: int)
    -> Move {
    Move {
        left: if hit(rate, draws, 3 * i) {
            fresh[3 * i]
        } else {
            gene.left
        },
        right: if hit(rate, draws, 3 * i + 1) {
            fresh[3 * i + 1]
        } else {
            gene.right
        },
        up: if hit(rate, draws, 3 * i + 2) {
            fresh[3 * i + 2]
        } else {
            gene.up
        },
    }
}

/// The genome after mutation of every gene.
pub open spec fn mutated(genome: Seq<Move>, rate: u32, draws: Seq<u32>, fresh: Seq<bool>) -> Seq<
    Move,
> {
    Seq::new(genome.len(), |i: int| mutated_gene(genome[i], rate, draws, fresh, i))
}

/// Whether every draw is a number of the half-open unit interval.
pub open spec fn unit_draws(draws: Seq<u32>) -> bool {
    forall|k: int| 0 <= k < draws.len() ==> is_unit(#[trigger] draws[k])
}

/// Copies a genome.
pub fn copy_genome(genome: &Vec<Move>) -> (copy: Vec<Move>)
    ensures
        copy@ == genome@,
{
    let mut copy: Vec<Move> = Vec::new();
    let mut i: usize = 0;
    while i < genome.len()
        invariant
            i <= genome.len(),
            copy@ == genome@.take(i as int),
        decreases genome.len() - i,
    {
        copy.push(genome[i]);
        i += 1;
        assert(copy@ =~= genome@.take(i as int));
    }
    assert(genome@.take(i as int) == genome@);
    copy
}

/// Draws a move: its switches left, right and up, in that order.
fn random_move(rng: &mut rand::rngs::StdRng) -> (m: Move) {
    let left = random_bool(rng);
    let right = random_bool(rng);
    let up = random_bool(rng);
    Move { left, right, up }
}

/// Draws a genome of the given length.
pub fn random_genome(rng: &mut rand::rngs::StdRng, length: usize) -> (genome: Vec<Move>)
    ensures
        genome.len() == length,
{
    let mut genome: Vec<Move> = Vec::new();
    let mut i: usize = 0;
    while i < length
        invariant
            i <= length,
            genome.len() == i,
        decreases length - i,
    {
        genome.push(random_move(rng));
        i += 1;
    }
    genome
}

/// Crosses two parents of one length by the given picks.
pub fn crossover(first: &Vec<Move>, second: &Vec<Move>, picks: &Vec<bool>) -> (child: Vec<Move>)
    requires
        first.len() == second.len(),
        picks.len() == first.len(),
    ensures
        child@ == crossed(first@, second@, picks@),
{
    let mut child: Vec<Move> = Vec::new();
    let mut i: usize = 0;
    while i < first.len()
        invariant
            i <= first.len(),
            first.len() == second.len(),
            picks.len() == first.len(),
            child@ == crossed(first@, second@, picks@).take(i as int),
        decreases first.len() - i,
    {
        if picks[i] {
            child.push(first[i]);
        } else {
            child.push(second[i]);
        }
        i += 1;
        assert(child@ =~= crossed(first@, second@, picks@).take(i as int));
    }
    assert(crossed(first@, second@, picks@).take(i as int) == crossed(first@, second@, picks@));
    child
}

/// Crosses two parents of one length uniformly: each gene is taken from
/// one parent or the other by a draw of its own.
pub fn random_crossover(rng: &mut rand::rngs::StdRng, first: &Vec<Move>, second: &Vec<Move>)
    -> (child: Vec<Move>)
    requires
        first.len() == second.len(),
    ensures
        exists|picks: Seq<bool>|
            picks.len() == first.len() && child@ == #[trigger] crossed(first@, second@, picks),
        child.len() == first.len(),
        forall|i: int|
            0 <= i < child.len() ==> #[trigger] child[i] == first[i] || child[i] == second[i],
{
    let mut picks: Vec<bool> = Vec::new();
    let mut i: usize = 0;
    while i < first.len()
        invariant
            i <= first.len(),
            picks.len() == i,
        decreases first.len() - i,
    {
        picks.push(random_bool(rng));
        i += 1;
    }
    let child = crossover(first, second, &picks);
    proof {
        lemma_crossed_draws_from_parents(first@, second@, picks@);
    }
    child
}

/// Mutates a genome by the given draws and fresh values.
pub fn mutate(genome: &Vec<Move>, rate: u32, draws: &Vec<u32>, fresh: &Vec<bool>) -> (result: Vec<
    Move,
>)
    requires
        draws.len() == 3 * genome.len(),
        fresh.len() == 3 * genome.len(),
    ensures
        result@ == mutated(genome@, rate, draws@, fresh@),
{
    let mut result: Vec<Move> = Vec::new();
    let mut i: usize = 0;
    while i < genome.len()
        invariant
            i <= genome.len(),
            draws.len() == 3 * genome.len(),
            fresh.len() == 3 * genome.len(),
            result@ == mutated(genome@, rate, draws@, fresh@).take(i as int),
        decreases genome.len() - i,
    {
        let mut gene = genome[i];
        if less(draws[3 * i], rate) {
            gene.left = fresh[3 * i];
        }
        if less(draws[3 * i + 1], rate) {
            gene.right = fresh[3 * i + 1];
        }
        if less(draws[3 * i + 2], rate) {
            gene.up = fresh[3 * i + 2];
        }
        result.push(gene);
        i += 1;
        assert(result@ =~= mutated(genome@, rate, draws@, fresh@).take(i as int));
    }
    assert(mutated(genome@, rate, draws@, fresh@).take(i as int) == mutated(
        genome@,
        rate,
        draws@,
        fresh@,
    ));
    result
}

/// Tells whether every draw is a number of the half-open unit interval.
pub fn are_unit_draws(draws: &Vec<u32>) -> (ok: bool)
    ensures
        ok == unit_draws(draws@),
{
    let mut k: usize = 0;
    while k < draws.len()
        invariant
            k <= draws.len(),
            forall|j: int| 0 <= j < k ==> is_unit(#[trigger] draws[j]),
        decreases draws.len() - k,
    {
        if draws[k] >= ONE {
            return false;
        }
        k += 1;
    }
    true
}

/// Mutates a genome by the given draws from the unit interval, with a
/// fresh value drawn for each switch whose draw falls below the rate. At
/// rate zero the genome comes back as it went in.
pub fn random_mutate(
    rng: &mut rand::rngs::StdRng,
    genome: &Vec<Move>,
    rate: u32,
    draws: &Vec<u32>,
) -> (result: Vec<Move>)
    requires
        draws.len() == 3 * genome.len(),
        unit_draws(draws@),
    ensures
        exists|fresh: Seq<bool>|
            fresh.len() == 3 * genome.len() && result@ == #[trigger] mutated(
                genome@,
                rate,
                draws@,
                fresh,
            ),
        result.len() == genome.len(),
        rate == 0 ==> result@ == genome@,
{
    let mut fresh: Vec<bool> = Vec::new();
    let mut k: usize = 0;
    while k < draws.len()
        invariant
            k <= draws.len(),
            fresh.len() == k,
        decreases draws.len() - k,
    {
        if less(draws[k], rate) {
            fresh.push(random_bool(rng));
        } else {
            fresh.push(false);
        }
        k += 1;
    }
    proof {
        if rate == 0 {
            lemma_rate_zero_keeps_genome(genome@, draws@, fresh@);
        }
    }
    mutate(genome, rate, draws, &fresh)
}

/// A crossed child has the length of its parents, and each of its genes is
/// the gene of one parent at the same position.
pub proof fn lemma_crossed_draws_from_parents(
    first: Seq<Move>,
    second: Seq<Move>,
    picks: Seq<bool>,
)
    requires
        first.len() == second.len(),
        picks.len() == first.len(),
    ensures
        crossed(first, second, picks).len() == first.len(),
        forall|i: int|
            0 <= i < first.len() ==> #[trigger] crossed(first, second, picks)[i] == first[i]
                || crossed(first, second, picks)[i] == second[i],
{
}

/// At rate zero no switch changes: the mutated genome is the genome.
pub proof fn lemma_rate_zero_keeps_genome(genome: Seq<Move>, draws: Seq<u32>, fresh: Seq<bool>)
    requires
        draws.len() == 3 * genome.len(),
        unit_draws(draws),
    ensures
        mutated(genome, 0, draws, fresh) == genome,
{
    assert forall|i: int| 0 <= i < genome.len() implies mutated(genome, 0, draws, fresh)[i]
        == genome[i] by {
        assert(is_unit(draws[3 * i]));
        assert(is_unit(draws[3 * i + 1]));
        assert(is_unit(draws[3 * i + 2]));
    }
    assert(mutated(genome, 0, draws, fresh) =~= genome);
}

/// At rate one every switch takes its fresh value: the mutated genome is
/// the same whatever genome went in.
pub proof fn lemma_rate_one_forgets_genome(
    genome: Seq<Move>,
    other: Seq<Move>,
    draws: Seq<u32>,
    fresh: Seq<bool>,
)
    requires
        draws.len() == 3 * genome.len(),
        other.len() == genome.len(),
        unit_draws(draws),
    ensures
        mutated(genome, ONE, draws, fresh) == mutated(other, ONE, draws, fresh),
        forall|i: int|
            0 <= i < genome.len() ==> #[trigger] mutated(genome, ONE, draws, fresh)[i] == (Move {
                left: fresh[3 * i],
                right: fresh[3 * i + 1],
                up: fresh[3 * i + 2],
            }),
{
    assert forall|i: int| 0 <= i < genome.len() implies #[trigger] mutated(
        genome,
        ONE,
        draws,
        fresh,
    )[i] == (Move { left: fresh[3 * i], right: fresh[3 * i + 1], up: fresh[3 * i + 2] })
        && mutated(other, ONE, draws, fresh)[i] == mutated(genome, ONE, draws, fresh)[i] by {
        assert(is_unit(draws[3 * i]));
        assert(is_unit(draws[3 * i + 1]));
        assert(is_unit(draws[3 * i + 2]));
    }
    assert(mutated(genome, ONE, draws, fresh) =~= mutated(other, ONE, draws, fresh));
}

} // verus!
