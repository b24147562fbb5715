//! Choosing a parent from a population.

pub mod roulette_wheel;

use vstd::prelude::*;
use rand_chacha::ChaCha8Rng;
use crate::individual::Individual;

verus! {

/// A way of choosing one individual of a population that is not empty.
pub trait SelectionMethod<I: Individual> {
    /// Whether this method may choose `chosen` from `population`. A method
    /// that does not say rules nothing out.
    open spec fn selects(&self, population: Seq<I>, chosen: I) -> bool {
        true
    }

    fn select<'a>(&self, population: &'a [I], rng: &mut ChaCha8Rng) -> (chosen: &'a I)
        requires
            population@.len() > 0,
        ensures
            population@.contains(*chosen),
            self.selects(population@, *chosen),
    ;
}

} // verus!
