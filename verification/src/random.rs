//! The random source and the draws that the crate makes from it.
//!
//! Nothing here is proved: each contract states what the `rand` crate
//! documents of the call in the body.

use vstd::prelude::*;
use rand_chacha::ChaCha8Rng;
use crate::individual::Individual;
use crate::select::roulette_wheel::fitnesses;

verus! {

/// `rand_chacha::ChaCha8Rng`, the random source. It is handed through to the
/// draws below as it is.
#[verifier::external_type_specification]
#[verifier::external_body]
pub struct ExChaCha8Rng(ChaCha8Rng);

/// The sum of the weights.
pub open spec fn total(weights: Seq<u32>) -> int
    decreases weights.len(),
{
    if weights.len() == 0 {
        0
    } else {
        total(weights.drop_last()) + weights.last()
    }
}

/// `rand::Rng::gen_ratio(1, 2)`: a fair coin. Nothing is claimed of the
/// outcome.
#[verifier::external_body]
pub(crate) fn coin(rng: &mut ChaCha8Rng) -> (heads: bool) {
    rand::Rng::gen_ratio(rng, 1, 2)
}

/// `rand::Rng::gen_range(0..bound)`: an index below `bound`, which must not be
/// zero; the call panics on an empty range.
#[verifier::external_body]
pub(crate) fn uniform_index(bound: usize, rng: &mut ChaCha8Rng) -> (index: usize)
    requires
        bound > 0,
    ensures
        index < bound,
{
    rand::Rng::gen_range(rng, 0..bound)
}

/// `rand::seq::SliceRandom::choose_weighted` with the fitness of each
/// individual as its weight: an individual drawn with a chance in proportion
/// to its fitness. The call adds the weights up in 32 bits, so their sum must
/// fit. It fails where there is no individual or every fitness is zero; and
/// otherwise the individual it draws is the first whose running sum of
/// fitness exceeds a number below the total, so its fitness is not zero.
#[verifier::external_body]
pub(crate) fn choose_weighted<'a, I: Individual<Fitness = u32>>(
    population: &'a [I],
    rng: &mut ChaCha8Rng,
) -> (chosen: Option<&'a I>)
    requires
        total(fitnesses(population@)) <= u32::MAX,
    ensures
        chosen is Some <==> total(fitnesses(population@)) > 0,
        chosen matches Some(individual) ==> population@.contains(*individual)
            && individual.fitness_value() > 0,
{
    rand::seq::SliceRandom::choose_weighted(population, rng, |individual| individual.fitness()).ok()
}

} // verus!
