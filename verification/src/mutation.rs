//! Changing a chromosome in place.

pub mod gaussian;

use vstd::prelude::*;
use rand_chacha::ChaCha8Rng;
use crate::chromosome::Chromosome;
use crate::scalar::Scalar;

verus! {

/// A way of changing the genes of a chromosome. It keeps their number.
pub trait MutationMethod {
    /// Whether this method may turn `before` into `after`. A method that
    /// does not say rules nothing out.
    open spec fn mutates(&self, before: Seq<Scalar>, after: Seq<Scalar>) -> bool {
        true
    }

    fn mutate(&self, chromosome: &mut Chromosome, rng: &mut ChaCha8Rng)
        ensures
            final(chromosome)@.len() == old(chromosome)@.len(),
            self.mutates(old(chromosome)@, final(chromosome)@),
    ;
}

} // verus!
