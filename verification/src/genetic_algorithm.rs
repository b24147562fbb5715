//! The driver that turns one generation into the next.

use vstd::prelude::*;
use rand_chacha::ChaCha8Rng;
use crate::crossover::{child_len, CrossoverMethod};
use crate::individual::Individual;
use crate::mutation::MutationMethod;
use crate::scalar::Scalar;
use crate::select::SelectionMethod;

verus! {

/// A genetic algorithm: a way to select parents, a way to cross their
/// chromosomes and a way to mutate the result.
pub struct GeneticAlgorithm<S, C, M> {
    selection_method: S,
    crossover_method: C,
    mutation_method: M,
}

impl<S, C: CrossoverMethod, M: MutationMethod> GeneticAlgorithm<S, C, M> {
    pub closed spec fn selection(&self) -> S {
        self.selection_method
    }

    pub closed spec fn crossing(&self) -> C {
        self.crossover_method
    }

    pub closed spec fn mutation(&self) -> M {
        self.mutation_method
    }

    /// Whether `child` comes of `population` by these steps: `father` and
    /// `mother` are selected from it, their chromosomes are crossed into
    /// `crossed`, that is mutated into `mutated`, and the child is made of
    /// the outcome.
    pub open spec fn breeds_by<I: Individual>(
        &self,
        population: Seq<I>,
        father: I,
        mother: I,
        crossed: Seq<Scalar>,
        mutated: Seq<Scalar>,
        child: I,
    ) -> bool where S: SelectionMethod<I> {
        &&& population.contains(father)
        &&& self.selection().selects(population, father)
        &&& population.contains(mother)
        &&& self.selection().selects(population, mother)
        &&& crossed.len() == child_len(father.genes().len(), mother.genes().len())
        &&& self.crossing().crosses(father.genes(), mother.genes(), crossed)
        &&& mutated.len() == crossed.len()
        &&& self.mutation().mutates(crossed, mutated)
        &&& child.genes() == mutated
    }

    /// Whether `child` can come of `population` in one round of selection,
    /// crossover and mutation.
    pub open spec fn breeds<I: Individual>(&self, population: Seq<I>, child: I) -> bool where
        S: SelectionMethod<I>,
     {
        exists|father: I, mother: I, crossed: Seq<Scalar>, mutated: Seq<Scalar>|
            self.breeds_by(population, father, mother, crossed, mutated, child)
    }

    pub fn new(selection_method: S, crossover_method: C, mutation_method: M) -> (r: Self)
        ensures
            r.selection() == selection_method,
            r.crossing() == crossover_method,
            r.mutation() == mutation_method,
    {
        GeneticAlgorithm { selection_method, crossover_method, mutation_method }
    }

    /// One child of a population that is not empty: a father is selected, then
    /// a mother, their chromosomes are crossed, the result is mutated, and the
    /// child is made of it. The random source is used in that order.
    pub fn breed<I: Individual>(&self, population: &[I], rng: &mut ChaCha8Rng) -> (child: I) where
        S: SelectionMethod<I>,

        requires
            population@.len() > 0,
        ensures
            self.breeds(population@, child),
    {
        let father = self.selection_method.select(population, rng);
        let mother = self.selection_method.select(population, rng);
        let mut chromosome = self.crossover_method.crossover(
            father.chromosome(),
            mother.chromosome(),
            rng,
        );
        let ghost crossed = chromosome@;
        self.mutation_method.mutate(&mut chromosome, rng);
        let ghost mutated = chromosome@;
        let child = I::create(chromosome);
        assert(self.breeds_by(population@, *father, *mother, crossed, mutated, child));
        child
    }

    /// The next generation: as many children as the population has members,
    /// each bred in turn from the whole population.
    pub fn evolve<I: Individual>(&self, population: &[I], rng: &mut ChaCha8Rng) -> (next: Vec<
        I,
    >) where S: SelectionMethod<I>
        ensures
            next@.len() == population@.len(),
            forall|k: int| 0 <= k < next@.len() ==> self.breeds(population@, #[trigger] next@[k]),
    {
        let mut next: Vec<I> = Vec::new();
        let mut k: usize = 0;
        while k < population.len()
            invariant
                k <= population@.len(),
                next@.len() == k,
                forall|j: int| 0 <= j < next@.len() ==> self.breeds(population@, #[trigger] next@[j]),
            decreases population@.len() - k,
        {
            let child = self.breed(population, rng);
            next.push(child);
            k += 1;
        }
        next
    }
}

/// Where every member of a population has `len` genes, so has every child
/// bred from it.
pub proof fn law_children_keep_length<S, C, M, I>(
    algorithm: GeneticAlgorithm<S, C, M>,
    population: Seq<I>,
    child: I,
    len: nat,
) where S: SelectionMethod<I>, C: CrossoverMethod, M: MutationMethod, I: Individual
    requires
        forall|i: int| 0 <= i < population.len() ==> (#[trigger] population[i]).genes().len() == len,
        algorithm.breeds(population, child),
    ensures
        child.genes().len() == len,
{
    let (father, mother, crossed, mutated) = choose|
        father: I,
        mother: I,
        crossed: Seq<Scalar>,
        mutated: Seq<Scalar>,
    | algorithm.breeds_by(population, father, mother, crossed, mutated, child);
    assert(population.contains(father));
    assert(population.contains(mother));
}

} // verus!
