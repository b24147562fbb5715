//! An animal's brain: a network with one input per cell of the eyes, a hidden
//! layer twice as wide, and two outputs.

use vstd::prelude::*;
use rand_chacha::ChaCha8Rng;
use crate::chromosome::Chromosome;
use crate::neural_network::neuron::NeuronModel;
use crate::neural_network::layer::layer_size;
use crate::neural_network::{
    decode, encode, has_topology, law_round_trip, lemma_decoded_has_topology, network_drawn,
    weight_count, LayerTopology, Network, NetworkError,
};
use crate::scalar::Scalar;
use crate::world::animal::eyes::{Eyes, CELLS};

verus! {

/// The number of outputs of a brain: a change of speed and a change of
/// heading.
pub const OUTPUTS: usize = 2;

/// The topology of the brain behind eyes of `cells` cells.
pub open spec fn brain_topology(cells: usize) -> Seq<LayerTopology> {
    seq![
        LayerTopology { neurons: cells },
        LayerTopology { neurons: (2 * cells) as usize },
        LayerTopology { neurons: OUTPUTS },
    ]
}

/// The number of genes of the brain behind eyes of `cells` cells: every
/// hidden neuron has a bias and a weight per cell, every output neuron a bias
/// and a weight per hidden neuron.
pub open spec fn brain_weight_count(cells: nat) -> nat {
    (2 * cells) * (1 + cells) + OUTPUTS as nat * (1 + 2 * cells)
}

/// The flat form of a network of a brain's topology is as long as
/// `brain_weight_count` says.
pub proof fn lemma_brain_weight_count(cells: usize)
    requires
        2 * cells <= usize::MAX,
    ensures
        weight_count(brain_topology(cells)) == brain_weight_count(cells as nat),
{
    let topology = brain_topology(cells);
    let shorter = topology.drop_last();
    assert(shorter.len() == 2);
    assert(shorter.drop_last().len() < 2);
    assert(weight_count(shorter) == weight_count(shorter.drop_last()) + layer_size(
        shorter[0].neurons as nat,
        shorter[1].neurons as nat,
    ));
    assert(weight_count(topology) == weight_count(shorter) + layer_size(
        topology[1].neurons as nat,
        topology[2].neurons as nat,
    ));
}

/// The number of genes of the brain behind eyes of `CELLS` cells.
pub const BRAIN_GENES: usize = 218;

/// `BRAIN_GENES` is `brain_weight_count` of the default number of cells.
pub proof fn lemma_brain_genes()
    ensures
        brain_weight_count(CELLS as nat) == BRAIN_GENES,
{
    assert((2 * 9) * (1 + 9) + 2 * (1 + 2 * 9) == 218) by (nonlinear_arith);
}

pub struct Brain {
    nn: Network,
}

impl View for Brain {
    type V = Seq<Seq<NeuronModel>>;

    closed spec fn view(&self) -> Seq<Seq<NeuronModel>> {
        self.nn@
    }
}

impl Brain {
    /// The topology of the brain behind the given eyes, where the width of
    /// the hidden layer fits the machine's word.
    pub fn topology(eye: &Eyes) -> (r: Option<[LayerTopology; 3]>)
        ensures
            r is Some <==> 2 * eye.cell_count() <= usize::MAX,
            r matches Some(layers) ==> layers@ == brain_topology(eye.cell_count()),
    {
        let cells = eye.cells();
        match cells.checked_mul(2) {
            None => None,
            Some(hidden) => {
                let layers = [
                    LayerTopology { neurons: cells },
                    LayerTopology { neurons: hidden },
                    LayerTopology { neurons: OUTPUTS },
                ];
                assert(layers@ =~= brain_topology(cells));
                Some(layers)
            },
        }
    }

    pub fn network(&self) -> (r: &Network)
        ensures
            r@ == self@,
    {
        &self.nn
    }

    /// A brain behind the given eyes whose genes are drawn from the random
    /// source by `draw`, in the order in which they are stored flat. There is
    /// none where the width of its hidden layer does not fit the machine's
    /// word.
    pub fn random<F: Fn(&mut ChaCha8Rng) -> Scalar>(rng: &mut ChaCha8Rng, eye: &Eyes, draw: &F) -> (r:
        Option<Self>)
        requires
            forall|source: &mut ChaCha8Rng| #[trigger] call_requires(*draw, (source,)),
        ensures
            r is Some <==> 2 * eye.cell_count() <= usize::MAX,
            r matches Some(brain) ==> has_topology(brain@, brain_topology(eye.cell_count()))
                && network_drawn(*draw, brain@),
    {
        match Brain::topology(eye) {
            None => None,
            Some(layers) => {
                let topology = layers.as_slice();
                assert(topology@ == brain_topology(eye.cell_count()));
                match Network::random(topology, rng, draw) {
                    Ok(nn) => Some(Brain { nn }),
                    Err(_) => None,
                }
            },
        }
    }

    /// The genes of the brain: the flat form of its network.
    pub fn as_chromosome(&self) -> (r: Chromosome)
        ensures
            r@ == encode(self@),
    {
        Chromosome::new(self.nn.weights())
    }

    /// The brain behind the given eyes whose genes are those of
    /// `chromosome`, which must hold exactly `brain_weight_count` of them.
    pub fn from_chromosome(chromosome: Chromosome, eye: &Eyes) -> (r: Result<Self, NetworkError>)
        ensures
            r is Ok <==> chromosome@.len() == brain_weight_count(eye.cell_count() as nat),
            r matches Ok(brain) ==> 2 * eye.cell_count() <= usize::MAX && brain@ == decode(
                brain_topology(eye.cell_count()),
                chromosome@,
            ) && encode(brain@) == chromosome@ && has_topology(
                brain@,
                brain_topology(eye.cell_count()),
            ),
            r matches Err(e) ==> e == if chromosome@.len() < brain_weight_count(
                eye.cell_count() as nat,
            ) {
                NetworkError::NotEnoughWeights
            } else {
                NetworkError::TooManyWeights
            },
    {
        let len = chromosome.len();
        match Brain::topology(eye) {
            None => {
                assert(brain_weight_count(eye.cell_count() as nat) > usize::MAX) by (nonlinear_arith)
                    requires
                        2 * eye.cell_count() > usize::MAX,
                ;
                Err(NetworkError::NotEnoughWeights)
            },
            Some(layers) => {
                proof {
                    lemma_brain_weight_count(eye.cell_count());
                    if chromosome@.len() == brain_weight_count(eye.cell_count() as nat) {
                        law_round_trip(brain_topology(eye.cell_count()), chromosome@);
                        lemma_decoded_has_topology(brain_topology(eye.cell_count()), chromosome@);
                    }
                }
                let genes = chromosome.into_iter();
                let topology = layers.as_slice();
                assert(topology@ == brain_topology(eye.cell_count()));
                match Network::from_weights(topology, genes.as_slice()) {
                    Ok(nn) => Ok(Brain { nn }),
                    Err(e) => Err(e),
                }
            },
        }
    }
}

} // verus!
