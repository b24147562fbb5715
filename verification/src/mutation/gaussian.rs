//! Gaussian mutation: with a given chance, a gene is nudged up or down by a
//! random share of a given coefficient.

use vstd::prelude::*;
use rand_chacha::ChaCha8Rng;
use crate::chromosome::Chromosome;
use crate::mutation::MutationMethod;
use crate::random::coin;
use crate::scalar::Scalar;

verus! {

/// The bit pattern of the number one.
pub const ONE_BITS: u32 = 0x3F80_0000;

/// Gaussian mutation. The chance is a number between zero and one, and the
/// coefficient a number that is not less than zero. `hit` draws from the
/// random source whether a gene is changed, given the chance, and `nudge`
/// draws a share of the coefficient and adds it to a gene or takes it away.
pub struct GaussianMutation<H, N> where
    H: Fn(&mut ChaCha8Rng, Scalar) -> bool,
    N: Fn(&mut ChaCha8Rng, Scalar, bool, Scalar) -> Scalar,
 {
    chance: Scalar,
    coeff: Scalar,
    hit: H,
    nudge: N,
}

/// Whether `changed` is what `hit` may say, at the given chance, of whether
/// a gene is changed.
pub open spec fn says<H: Fn(&mut ChaCha8Rng, Scalar) -> bool>(
    hit: H,
    chance: Scalar,
    changed: bool,
) -> bool {
    exists|source: &mut ChaCha8Rng| #[trigger] call_ensures(hit, (source, chance), changed)
}

/// Whether `after` is a gene that `nudge` may make of the gene `before` with
/// the given coefficient, be it upwards or downwards.
pub open spec fn nudged<N: Fn(&mut ChaCha8Rng, Scalar, bool, Scalar) -> Scalar>(
    nudge: N,
    coeff: Scalar,
    before: Scalar,
    after: Scalar,
) -> bool {
    exists|source: &mut ChaCha8Rng, up: bool| #[trigger]
        call_ensures(nudge, (source, before, up, coeff), after)
}

/// Whether `after` may come of the gene `before`: `hit` is asked, at this
/// chance, whether the gene is changed; where it says no, the gene stays as
/// it is, and where it says yes, the gene is what `nudge` makes of it.
pub open spec fn mutates_gene<H, N>(
    hit: H,
    nudge: N,
    chance: Scalar,
    coeff: Scalar,
    before: Scalar,
    after: Scalar,
) -> bool where
    H: Fn(&mut ChaCha8Rng, Scalar) -> bool,
    N: Fn(&mut ChaCha8Rng, Scalar, bool, Scalar) -> Scalar,
 {
    exists|changed: bool| #[trigger]
        says(hit, chance, changed) && if changed {
            nudged(nudge, coeff, before, after)
        } else {
            after == before
        }
}

impl<H, N> GaussianMutation<H, N> where
    H: Fn(&mut ChaCha8Rng, Scalar) -> bool,
    N: Fn(&mut ChaCha8Rng, Scalar, bool, Scalar) -> Scalar,
 {
    #[verifier::type_invariant]
    spec fn valid(self) -> bool {
        &&& (Scalar { bits: 0 }).is_at_most(self.chance)
        &&& self.chance.is_at_most(Scalar { bits: ONE_BITS })
        &&& (Scalar { bits: 0 }).is_at_most(self.coeff)
        &&& forall|source: &mut ChaCha8Rng, chance: Scalar| #[trigger]
            call_requires(self.hit, (source, chance))
        &&& forall|source: &mut ChaCha8Rng, gene: Scalar, up: bool, coeff: Scalar| #[trigger]
            call_requires(self.nudge, (source, gene, up, coeff))
    }

    pub closed spec fn chance(&self) -> Scalar {
        self.chance
    }

    pub closed spec fn coeff(&self) -> Scalar {
        self.coeff
    }

    pub closed spec fn hit(&self) -> H {
        self.hit
    }

    pub closed spec fn nudge(&self) -> N {
        self.nudge
    }

    /// A Gaussian mutation of the given chance, which lies between zero and
    /// one, and the given coefficient, which is not less than zero.
    pub fn new(chance: Scalar, coeff: Scalar, hit: H, nudge: N) -> (r: Self)
        requires
            (Scalar { bits: 0 }).is_at_most(chance),
            chance.is_at_most(Scalar { bits: ONE_BITS }),
            (Scalar { bits: 0 }).is_at_most(coeff),
            forall|source: &mut ChaCha8Rng, chance: Scalar| #[trigger]
                call_requires(hit, (source, chance)),
            forall|source: &mut ChaCha8Rng, gene: Scalar, up: bool, coeff: Scalar| #[trigger]
                call_requires(nudge, (source, gene, up, coeff)),
        ensures
            r.chance() == chance,
            r.coeff() == coeff,
            r.hit() == hit,
            r.nudge() == nudge,
    {
        GaussianMutation { chance, coeff, hit, nudge }
    }
}

impl<H, N> MutationMethod for GaussianMutation<H, N> where
    H: Fn(&mut ChaCha8Rng, Scalar) -> bool,
    N: Fn(&mut ChaCha8Rng, Scalar, bool, Scalar) -> Scalar,
 {
    /// Of every gene, `hit` is asked whether it is changed: the gene is the
    /// gene that it was where `hit` said no, and one that `nudge` made of it
    /// where `hit` said yes.
    open spec fn mutates(&self, before: Seq<Scalar>, after: Seq<Scalar>) -> bool {
        &&& after.len() == before.len()
        &&& forall|i: int|
            0 <= i < after.len() ==> mutates_gene(
                self.hit(),
                self.nudge(),
                self.chance(),
                self.coeff(),
                before[i],
                #[trigger] after[i],
            )
    }

    /// For every gene in turn, a coin is drawn that says whether the gene
    /// goes up or down, then `hit` draws whether the gene is changed at all,
    /// and where it is, `nudge` changes it.
    fn mutate(&self, chromosome: &mut Chromosome, rng: &mut ChaCha8Rng) {
        proof {
            use_type_invariant(self);
        }
        let len = chromosome.len();
        let genes = chromosome.iter_mut();
        let mut i: usize = 0;
        while i < len
            invariant
                i <= len,
                len == old(chromosome)@.len(),
                genes@.len() == len,
                forall|source: &mut ChaCha8Rng, chance: Scalar| #[trigger]
                    call_requires(self.hit, (source, chance)),
                forall|source: &mut ChaCha8Rng, gene: Scalar, up: bool, coeff: Scalar| #[trigger]
                    call_requires(self.nudge, (source, gene, up, coeff)),
                forall|k: int|
                    0 <= k < i ==> mutates_gene(
                        self.hit,
                        self.nudge,
                        self.chance,
                        self.coeff,
                        old(chromosome)@[k],
                        #[trigger] genes@[k],
                    ),
                forall|k: int| i <= k < len ==> #[trigger] genes@[k] == old(chromosome)@[k],
            decreases len - i,
        {
            let up = coin(rng);
            let changed = (self.hit)(rng, self.chance);
            assert(says(self.hit, self.chance, changed));
            if changed {
                let gene = (self.nudge)(rng, genes[i], up, self.coeff);
                assert(nudged(self.nudge, self.coeff, old(chromosome)@[i as int], gene));
                genes[i] = gene;
            }
            assert(mutates_gene(
                self.hit,
                self.nudge,
                self.chance,
                self.coeff,
                old(chromosome)@[i as int],
                genes@[i as int],
            ));
            i += 1;
        }
    }
}

/// Where `hit` never says at the chance of a mutation that a gene is
/// changed, the mutation leaves every chromosome as it is.
pub proof fn law_no_hit_no_change<H, N>(
    mutation: GaussianMutation<H, N>,
    before: Seq<Scalar>,
    after: Seq<Scalar>,
) where H: Fn(&mut ChaCha8Rng, Scalar) -> bool, N: Fn(&mut ChaCha8Rng, Scalar, bool, Scalar) -> Scalar
    requires
        forall|source: &mut ChaCha8Rng, changed: bool| #[trigger]
            call_ensures(mutation.hit(), (source, mutation.chance()), changed) ==> !changed,
        mutation.mutates(before, after),
    ensures
        after == before,
{
    assert forall|i: int| 0 <= i < after.len() implies after[i] == before[i] by {
        assert(mutates_gene(
            mutation.hit(),
            mutation.nudge(),
            mutation.chance(),
            mutation.coeff(),
            before[i],
            after[i],
        ));
        let changed = choose|changed: bool| #[trigger]
            says(mutation.hit(), mutation.chance(), changed) && if changed {
                nudged(mutation.nudge(), mutation.coeff(), before[i], after[i])
            } else {
                after[i] == before[i]
            };
        assert(says(mutation.hit(), mutation.chance(), changed));
    }
    assert(after =~= before);
}

/// Where `nudge` makes of a gene, at the coefficient of a mutation, nothing
/// but the gene itself, the mutation leaves every chromosome as it is.
pub proof fn law_no_nudge_no_change<H, N>(
    mutation: GaussianMutation<H, N>,
    before: Seq<Scalar>,
    after: Seq<Scalar>,
) where H: Fn(&mut ChaCha8Rng, Scalar) -> bool, N: Fn(&mut ChaCha8Rng, Scalar, bool, Scalar) -> Scalar
    requires
        forall|source: &mut ChaCha8Rng, gene: Scalar, up: bool, made: Scalar| #[trigger]
            call_ensures(mutation.nudge(), (source, gene, up, mutation.coeff()), made) ==> made
                == gene,
        mutation.mutates(before, after),
    ensures
        after == before,
{
    assert forall|i: int| 0 <= i < after.len() implies after[i] == before[i] by {
        assert(mutates_gene(
            mutation.hit(),
            mutation.nudge(),
            mutation.chance(),
            mutation.coeff(),
            before[i],
            after[i],
        ));
    }
    assert(after =~= before);
}

} // verus!
