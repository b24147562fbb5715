//! Making one chromosome out of two.

pub mod uniform;

use vstd::prelude::*;
use rand_chacha::ChaCha8Rng;
use crate::chromosome::Chromosome;
use crate::scalar::Scalar;

verus! {

/// The length of a child of parents of these lengths.
pub open spec fn child_len(father: nat, mother: nat) -> nat {
    if father <= mother {
        father
    } else {
        mother
    }
}

/// A way of making a child chromosome out of a father's and a mother's.
pub trait CrossoverMethod {
    /// Whether `child` is a chromosome that this method may make of the two
    /// parents. A method that does not say rules nothing out.
    open spec fn crosses(&self, father: Seq<Scalar>, mother: Seq<Scalar>, child: Seq<Scalar>) -> bool {
        true
    }

    /// The child is as long as the shorter parent.
    fn crossover(&self, father: &Chromosome, mother: &Chromosome, rng: &mut ChaCha8Rng) -> (child:
        Chromosome)
        ensures
            child@.len() == child_len(father@.len(), mother@.len()),
            self.crosses(father@, mother@, child@),
    ;
}

} // verus!
