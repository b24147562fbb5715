//! What the genetic algorithm asks of a member of a population.

use vstd::prelude::*;
use crate::chromosome::Chromosome;
use crate::scalar::Scalar;

verus! {

/// A member of a population: it has a fitness and a chromosome, and a new one
/// can be made from a chromosome.
///
/// `genes` and `fitness_value` say in contracts what `chromosome` and
/// `fitness` return. A type that Verus verifies defines both. A type written
/// in plain Rust cannot, and is left with the bodies below, which name some
/// value and say nothing of it.
pub trait Individual: Sized {
    /// How fitness is measured.
    type Fitness;

    /// The genes of the individual's chromosome.
    open spec fn genes(&self) -> Seq<Scalar> {
        arbitrary()
    }

    /// The individual's fitness.
    open spec fn fitness_value(&self) -> Self::Fitness {
        arbitrary()
    }

    fn fitness(&self) -> (r: Self::Fitness)
        ensures
            r == self.fitness_value(),
    ;

    fn chromosome(&self) -> (r: &Chromosome)
        ensures
            r@ == self.genes(),
    ;

    fn create(chromosome: Chromosome) -> (r: Self)
        ensures
            r.genes() == chromosome@,
    ;
}

} // verus!
