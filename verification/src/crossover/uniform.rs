//! Uniform crossover: every gene comes from the father or the mother, as a
//! fair coin decides.

use vstd::prelude::*;
use rand_chacha::ChaCha8Rng;
use crate::chromosome::Chromosome;
use crate::crossover::{child_len, CrossoverMethod};
use crate::random::coin;
use crate::scalar::Scalar;

verus! {

/// The child that takes gene `i` from the father where `from_father[i]` holds
/// and from the mother where it does not. It ends where the first of the
/// three sequences ends.
pub open spec fn mix(father: Seq<Scalar>, mother: Seq<Scalar>, from_father: Seq<bool>) -> Seq<
    Scalar,
> {
    Seq::new(
        child_len(child_len(father.len(), mother.len()), from_father.len()),
        |i: int|
            if from_father[i] {
                father[i]
            } else {
                mother[i]
            },
    )
}

#[derive(Clone, Copy, Debug, Default)]
pub struct UniformCrossover;

impl UniformCrossover {
    pub fn new() -> (r: Self) {
        UniformCrossover
    }

    /// The child that the given choices make of the two parents.
    pub fn combine(father: &Chromosome, mother: &Chromosome, from_father: &Vec<bool>) -> (child:
        Chromosome)
        ensures
            child@ == mix(father@, mother@, from_father@),
    {
        let mut len = father.len();
        if mother.len() < len {
            len = mother.len();
        }
        if from_father.len() < len {
            len = from_father.len();
        }
        let mut genes: Vec<Scalar> = Vec::new();
        let mut i: usize = 0;
        while i < len
            invariant
                i <= len,
                len == child_len(child_len(father@.len(), mother@.len()), from_father@.len()),
                genes@.len() == i,
                forall|k: int|
                    0 <= k < i ==> genes@[k] == mix(father@, mother@, from_father@)[k],
            decreases len - i,
        {
            let gene = if from_father[i] {
                father.index(i)
            } else {
                mother.index(i)
            };
            genes.push(gene);
            i += 1;
        }
        assert(genes@ =~= mix(father@, mother@, from_father@));
        Chromosome::new(genes)
    }
}

impl CrossoverMethod for UniformCrossover {
    /// The child is `mix` of the parents under some choice for every gene.
    open spec fn crosses(&self, father: Seq<Scalar>, mother: Seq<Scalar>, child: Seq<Scalar>) -> bool {
        exists|from_father: Seq<bool>|
            from_father.len() == child_len(father.len(), mother.len()) && child == #[trigger] mix(
                father,
                mother,
                from_father,
            )
    }

    /// Draws one coin for every gene, in order, and combines the parents by
    /// them.
    fn crossover(&self, father: &Chromosome, mother: &Chromosome, rng: &mut ChaCha8Rng) -> (child:
        Chromosome)
        ensures
            forall|i: int|
                0 <= i < child@.len() ==> child@[i] == father@[i] || child@[i] == mother@[i],
    {
        let mut len = father.len();
        if mother.len() < len {
            len = mother.len();
        }
        let mut from_father: Vec<bool> = Vec::new();
        let mut i: usize = 0;
        while i < len
            invariant
                i <= len,
                from_father@.len() == i,
            decreases len - i,
        {
            let heads = coin(rng);
            from_father.push(heads);
            i += 1;
        }
        UniformCrossover::combine(father, mother, &from_father)
    }
}

} // verus!
