//! Roulette-wheel selection: an individual is chosen with a chance in
//! proportion to its fitness.

use vstd::prelude::*;
use rand_chacha::ChaCha8Rng;
use crate::individual::Individual;
use crate::random::{choose_weighted, total, uniform_index};
use crate::select::SelectionMethod;

verus! {

/// The fitness of each individual, in order.
pub open spec fn fitnesses<I: Individual<Fitness = u32>>(population: Seq<I>) -> Seq<u32> {
    Seq::new(population.len(), |i: int| population[i].fitness_value())
}

/// Whether the wheel can be spun over these weights: some weight is not zero,
/// and their sum fits in 32 bits. Where it cannot, every individual is as
/// likely to be chosen as any other.
pub open spec fn spins(weights: Seq<u32>) -> bool {
    0 < total(weights) <= u32::MAX
}

#[derive(Clone, Copy, Debug, Default)]
pub struct RouletteWheelSelection;

impl RouletteWheelSelection {
    pub fn new() -> (r: Self) {
        RouletteWheelSelection
    }

    /// The weights of the wheel, one per individual, where it can be spun.
    pub fn wheel<I: Individual<Fitness = u32>>(population: &[I]) -> (weights: Option<Vec<u32>>)
        ensures
            weights is Some <==> spins(fitnesses(population@)),
            weights matches Some(w) ==> w@ == fitnesses(population@),
    {
        let ghost all = fitnesses(population@);
        let mut weights: Vec<u32> = Vec::new();
        let mut sum: u64 = 0;
        let mut i: usize = 0;
        assert(all.take(0) =~= Seq::empty());
        while i < population.len()
            invariant
                i <= population@.len(),
                all == fitnesses(population@),
                weights@ == all.take(i as int),
                sum == total(weights@),
                sum <= u32::MAX,
            decreases population@.len() - i,
        {
            let weight = population[i].fitness();
            proof {
                let longer = all.take(i + 1);
                assert(longer.drop_last() =~= all.take(i as int));
                assert(longer.last() == weight);
                lemma_total_grows(all, i + 1);
            }
            if sum + (weight as u64) > (u32::MAX as u64) {
                return None;
            }
            sum = sum + (weight as u64);
            weights.push(weight);
            i += 1;
            assert(weights@ =~= all.take(i as int));
        }
        assert(all.take(i as int) =~= all);
        if sum == 0 {
            None
        } else {
            Some(weights)
        }
    }
}

/// The sum of the first `count` weights is no more than the sum of all.
pub proof fn lemma_total_grows(weights: Seq<u32>, count: int)
    requires
        0 <= count <= weights.len(),
    ensures
        total(weights.take(count)) <= total(weights),
    decreases weights.len() - count,
{
    if count == weights.len() {
        assert(weights.take(count) =~= weights);
    } else {
        let longer = weights.take(count + 1);
        assert(longer.drop_last() =~= weights.take(count));
        lemma_total_grows(weights, count + 1);
    }
}

/// Where some individual has a fitness above zero and the sum of all fits in
/// 32 bits, the roulette wheel never chooses an individual of fitness zero.
pub proof fn law_zero_fitness_is_never_selected<I: Individual<Fitness = u32>>(
    wheel: RouletteWheelSelection,
    population: Seq<I>,
    chosen: I,
)
    requires
        spins(fitnesses(population)),
        wheel.selects(population, chosen),
    ensures
        chosen.fitness_value() > 0,
{
}

impl<I: Individual<Fitness = u32>> SelectionMethod<I> for RouletteWheelSelection {
    /// Where the wheel can be spun, no individual of fitness zero is chosen.
    open spec fn selects(&self, population: Seq<I>, chosen: I) -> bool {
        spins(fitnesses(population)) ==> chosen.fitness_value() > 0
    }

    /// Spins the wheel where it can be spun, and otherwise draws an index
    /// with equal chances.
    fn select<'a>(&self, population: &'a [I], rng: &mut ChaCha8Rng) -> (chosen: &'a I) {
        let drawn = match RouletteWheelSelection::wheel(population) {
            Some(_) => choose_weighted(population, rng),
            None => None,
        };
        match drawn {
            Some(chosen) => chosen,
            None => &population[uniform_index(population.len(), rng)],
        }
    }
}

} // verus!
