//! The flat, ordered gene vector that the genetic operators work on.

use vstd::prelude::*;
use crate::scalar::Scalar;

verus! {

/// An ordered sequence of genes.
#[derive(Debug)]
pub struct Chromosome {
    genes: Vec<Scalar>,
}

impl View for Chromosome {
    type V = Seq<Scalar>;

    closed spec fn view(&self) -> Seq<Scalar> {
        self.genes@
    }
}

impl Clone for Chromosome {
    fn clone(&self) -> (r: Self)
        ensures
            r@ == self@,
    {
        let mut genes: Vec<Scalar> = Vec::new();
        let mut i: usize = 0;
        while i < self.genes.len()
            invariant
                i <= self.genes@.len(),
                genes@ == self.genes@.take(i as int),
            decreases self.genes@.len() - i,
        {
            genes.push(self.genes[i]);
            i += 1;
            assert(genes@ =~= self.genes@.take(i as int));
        }
        assert(self.genes@.take(i as int) =~= self.genes@);
        Chromosome { genes }
    }
}

impl Chromosome {
    pub fn new(genes: Vec<Scalar>) -> (r: Self)
        ensures
            r@ == genes@,
    {
        Chromosome { genes }
    }

    pub fn len(&self) -> (n: usize)
        ensures
            n == self@.len(),
    {
        self.genes.len()
    }

    pub fn is_empty(&self) -> (r: bool)
        ensures
            r == (self@.len() == 0),
    {
        self.genes.len() == 0
    }

    /// The genes in order.
    pub fn iter(&self) -> (genes: &Vec<Scalar>)
        ensures
            genes@ == self@,
    {
        &self.genes
    }

    /// The genes in order, open to change; their number cannot change.
    pub fn iter_mut(&mut self) -> (genes: &mut [Scalar])
        ensures
            genes@ == old(self)@,
            final(self)@ == final(genes)@,
    {
        self.genes.as_mut_slice()
    }

    /// The gene at `index`.
    pub fn index(&self, index: usize) -> (gene: Scalar)
        requires
            index < self@.len(),
        ensures
            gene == self@[index as int],
    {
        self.genes[index]
    }

    /// Whether this chromosome equals the other as closely as `close` asks:
    /// the two have as many genes, and `close` says of every gene and the
    /// gene at its place in the other that they are close enough. Genes are
    /// compared in order, up to the first pair that is not close.
    pub fn is_close<F: Fn(Scalar, Scalar) -> bool>(&self, other: &Chromosome, close: &F) -> (r: bool)
        requires
            forall|a: Scalar, b: Scalar| #[trigger] call_requires(*close, (a, b)),
        ensures
            r ==> self@.len() == other@.len() && forall|i: int|
                0 <= i < self@.len() ==> call_ensures(*close, (#[trigger] self@[i], other@[i]), true),
            !r ==> self@.len() != other@.len() || exists|i: int|
                0 <= i < self@.len() && call_ensures(*close, (#[trigger] self@[i], other@[i]), false),
    {
        if self.genes.len() != other.genes.len() {
            return false;
        }
        let mut i: usize = 0;
        while i < self.genes.len()
            invariant
                i <= self.genes@.len(),
                self.genes@.len() == other.genes@.len(),
                forall|a: Scalar, b: Scalar| #[trigger] call_requires(*close, (a, b)),
                forall|k: int|
                    0 <= k < i ==> call_ensures(
                        *close,
                        (#[trigger] self.genes@[k], other.genes@[k]),
                        true,
                    ),
            decreases self.genes@.len() - i,
        {
            if !close(self.genes[i], other.genes[i]) {
                return false;
            }
            i += 1;
        }
        true
    }

    /// Gives the genes up, in order.
    pub fn into_iter(self) -> (genes: Vec<Scalar>)
        ensures
            genes@ == self@,
    {
        self.genes
    }
}

} // verus!
