//! Feed-forward networks and their flat encoding.
//!
//! A network is stored flat layer after layer, within a layer neuron after
//! neuron, and within a neuron the bias before the weights. `encode` writes
//! that order down, `decode` reads it back, and `law_round_trip` states that
//! the two agree.

pub mod layer;
pub mod neuron;

use vstd::prelude::*;
use rand_chacha::ChaCha8Rng;
use crate::neural_network::layer::{
    decode_layer, encode_layer, feeds, layer_drawn, layer_size, layer_yields,
    lemma_encode_layer_len, lemma_layer_read_back, lemma_layer_round_trip, Layer,
};
use crate::neural_network::neuron::{Neuron, NeuronModel};
use crate::scalar::Scalar;

verus! {

/// The number of neurons in one layer of a network. The first entry of a
/// topology gives the number of inputs.
#[derive(Clone, Copy, Debug)]
pub struct LayerTopology {
    pub neurons: usize,
}

/// Why a network could not be built.
#[derive(Clone, Copy, Debug, PartialEq, Eq, Structural)]
pub enum NetworkError {
    /// Fewer than two layers were given.
    InvalidTopology,
    /// The values ran out before every bias and weight was read.
    NotEnoughWeights,
    /// Values were left over after every bias and weight was read.
    TooManyWeights,
}

/// The number of values that a network of the given topology takes when
/// stored flat: one bias and one weight per input for every neuron after the
/// input layer.
pub open spec fn weight_count(topology: Seq<LayerTopology>) -> nat
    decreases topology.len(),
{
    if topology.len() < 2 {
        0
    } else {
        weight_count(topology.drop_last()) + layer_size(
            topology[topology.len() - 2].neurons as nat,
            topology.last().neurons as nat,
        )
    }
}

/// Where the values of layer `index` begin in the flat form.
pub open spec fn layer_start(topology: Seq<LayerTopology>, index: int) -> nat {
    weight_count(topology.take(index + 1))
}

/// A network's values in the order in which they are stored flat.
pub open spec fn encode(network: Seq<Seq<NeuronModel>>) -> Seq<Scalar>
    decreases network.len(),
{
    if network.len() == 0 {
        Seq::empty()
    } else {
        encode(network.drop_last()) + encode_layer(network.last())
    }
}

/// The network of the given topology that `values` stand for.
pub open spec fn decode(topology: Seq<LayerTopology>, values: Seq<Scalar>) -> Seq<
    Seq<NeuronModel>,
> {
    if topology.len() < 2 {
        Seq::empty()
    } else {
        Seq::new(
            (topology.len() - 1) as nat,
            |i: int|
                decode_layer(
                    topology[i].neurons as nat,
                    topology[i + 1].neurons as nat,
                    values,
                    layer_start(topology, i) as int,
                ),
        )
    }
}

/// The error with which `count` values are turned down for `topology`, where
/// they are.
pub open spec fn rejection(topology: Seq<LayerTopology>, count: nat) -> Option<NetworkError> {
    if topology.len() < 2 {
        Some(NetworkError::InvalidTopology)
    } else if count < weight_count(topology) {
        Some(NetworkError::NotEnoughWeights)
    } else if count > weight_count(topology) {
        Some(NetworkError::TooManyWeights)
    } else {
        None
    }
}

/// Whether the network has the given topology: one layer for every entry
/// after the first, with as many neurons as the entry says, each with one
/// weight per neuron of the entry before.
pub open spec fn has_topology(network: Seq<Seq<NeuronModel>>, topology: Seq<LayerTopology>) -> bool {
    &&& topology.len() >= 2
    &&& network.len() == topology.len() - 1
    &&& forall|i: int|
        0 <= i < network.len() ==> (#[trigger] network[i]).len() == topology[i + 1].neurons
            && feeds(network[i], topology[i].neurons as nat)
}

/// Whether every bias and weight of the network is a value that `draw` may
/// draw from the random source.
pub open spec fn network_drawn<F: Fn(&mut ChaCha8Rng) -> Scalar>(
    draw: F,
    network: Seq<Seq<NeuronModel>>,
) -> bool {
    forall|i: int| 0 <= i < network.len() ==> layer_drawn(draw, #[trigger] network[i])
}

/// Whether the layers fit one another and `input_size` inputs: every neuron
/// of the first layer has one weight per input, and every neuron of a later
/// layer one weight per neuron of the layer before.
pub open spec fn chained(network: Seq<Seq<NeuronModel>>, input_size: nat) -> bool {
    forall|i: int|
        0 <= i < network.len() ==> feeds(
            #[trigger] network[i],
            if i == 0 {
                input_size
            } else {
                network[i - 1].len()
            },
        )
}

/// The number of outputs of a network on `input_size` inputs: the number of
/// neurons of its last layer.
pub open spec fn output_size(network: Seq<Seq<NeuronModel>>, input_size: nat) -> nat {
    if network.len() == 0 {
        input_size
    } else {
        network.last().len()
    }
}

/// Whether `steps` are the values that pass through the layers on the way
/// from `inputs` to `outputs`: the inputs first, then what each layer in turn
/// makes of the values before it, the outputs last.
pub open spec fn passes_through<F: Fn(&Neuron, &Vec<Scalar>) -> Scalar>(
    activate: F,
    network: Seq<Seq<NeuronModel>>,
    inputs: Seq<Scalar>,
    outputs: Seq<Scalar>,
    steps: Seq<Seq<Scalar>>,
) -> bool {
    &&& steps.len() == network.len() + 1
    &&& steps[0] == inputs
    &&& steps.last() == outputs
    &&& forall|i: int|
        0 <= i < network.len() ==> layer_yields(activate, #[trigger] network[i], steps[i], steps[i + 1])
}

/// Whether `outputs` is what the network may make of `inputs`, each layer
/// being fed what the layer before it gave.
pub open spec fn network_yields<F: Fn(&Neuron, &Vec<Scalar>) -> Scalar>(
    activate: F,
    network: Seq<Seq<NeuronModel>>,
    inputs: Seq<Scalar>,
    outputs: Seq<Scalar>,
) -> bool {
    exists|steps: Seq<Seq<Scalar>>| passes_through(activate, network, inputs, outputs, steps)
}

/// What each of `layers` is made of, in order.
pub open spec fn layer_models(layers: Seq<Layer>) -> Seq<Seq<NeuronModel>> {
    Seq::new(layers.len(), |i: int| layers[i]@)
}

pub struct Network {
    layers: Vec<Layer>,
}

impl View for Network {
    type V = Seq<Seq<NeuronModel>>;

    closed spec fn view(&self) -> Seq<Seq<NeuronModel>> {
        layer_models(self.layers@)
    }
}

impl Network {
    /// The outputs of the network on `inputs`: the layers are applied in
    /// order, each to what the layer before it gave, and `activate` gives the
    /// output of a single neuron. The layers must fit one another and the
    /// inputs, and `activate` must take any neuron with as many values as the
    /// neuron has weights.
    pub fn propagate<F: Fn(&Neuron, &Vec<Scalar>) -> Scalar>(
        &self,
        inputs: Vec<Scalar>,
        activate: &F,
    ) -> (outputs: Vec<Scalar>)
        requires
            chained(self@, inputs@.len()),
            forall|neuron: Neuron, values: Vec<Scalar>|
                neuron@.weights.len() == values@.len() ==> #[trigger] call_requires(
                    *activate,
                    (&neuron, &values),
                ),
        ensures
            outputs@.len() == output_size(self@, inputs@.len()),
            network_yields(*activate, self@, inputs@, outputs@),
    {
        let mut current = inputs;
        let ghost mut steps: Seq<Seq<Scalar>> = seq![inputs@];
        let mut i: usize = 0;
        while i < self.layers.len()
            invariant
                i <= self.layers@.len(),
                chained(self@, inputs@.len()),
                forall|neuron: Neuron, values: Vec<Scalar>|
                    neuron@.weights.len() == values@.len() ==> #[trigger] call_requires(
                        *activate,
                        (&neuron, &values),
                    ),
                current@.len() == if i == 0 {
                    inputs@.len()
                } else {
                    self@[i - 1].len()
                },
                passes_through(*activate, self@.take(i as int), inputs@, current@, steps),
            decreases self.layers@.len() - i,
        {
            let layer = &self.layers[i];
            assert(layer@ == self@[i as int]);
            assert(feeds(self@[i as int], current@.len()));
            current = layer.propagate(current, activate);
            proof {
                let shorter = self@.take(i as int);
                let longer = self@.take(i + 1);
                let further = steps.push(current@);
                assert forall|k: int| 0 <= k < longer.len() implies layer_yields(
                    *activate,
                    #[trigger] longer[k],
                    further[k],
                    further[k + 1],
                ) by {
                    if k < i {
                        assert(shorter[k] == longer[k]);
                    }
                }
                steps = further;
            }
            i += 1;
        }
        assert(self@.take(i as int) =~= self@);
        current
    }

    /// A network of the given topology whose biases and weights are drawn
    /// from the random source by `draw`, in the order in which they are
    /// stored flat. A topology of fewer than two layers is turned down.
    pub fn random<F: Fn(&mut ChaCha8Rng) -> Scalar>(
        layers: &[LayerTopology],
        rng: &mut ChaCha8Rng,
        draw: &F,
    ) -> (r: Result<Self, NetworkError>)
        requires
            forall|source: &mut ChaCha8Rng| #[trigger] call_requires(*draw, (source,)),
        ensures
            r is Ok <==> layers@.len() >= 2,
            r matches Ok(network) ==> has_topology(network@, layers@) && network_drawn(
                *draw,
                network@,
            ),
            r matches Err(e) ==> e == NetworkError::InvalidTopology,
    {
        let len = layers.len();
        if len < 2 {
            return Err(NetworkError::InvalidTopology);
        }
        let mut built: Vec<Layer> = Vec::new();
        let mut i: usize = 0;
        while i + 1 < len
            invariant
                len == layers@.len(),
                len >= 2,
                i + 1 <= len,
                built@.len() == i,
                forall|k: int| 0 <= k < i ==> layer_drawn(*draw, (#[trigger] built@[k])@),
                forall|k: int|
                    0 <= k < i ==> (#[trigger] built@[k])@.len() == layers@[k + 1].neurons && feeds(
                        built@[k]@,
                        layers@[k].neurons as nat,
                    ),
                forall|source: &mut ChaCha8Rng| #[trigger] call_requires(*draw, (source,)),
            decreases len - i,
        {
            let layer = Layer::random(rng, layers[i].neurons, layers[i + 1].neurons, draw);
            built.push(layer);
            i += 1;
        }
        Ok(Network { layers: built })
    }

    /// A network of the given layers, the first of which reads the inputs.
    /// Fewer than two layers are turned down.
    pub fn new(layers: Vec<Layer>) -> (r: Result<Self, NetworkError>)
        ensures
            r is Ok <==> layers@.len() >= 2,
            r matches Ok(network) ==> network@ == layer_models(layers@),
            r matches Err(e) ==> e == NetworkError::InvalidTopology,
    {
        if layers.len() < 2 {
            Err(NetworkError::InvalidTopology)
        } else {
            Ok(Network { layers })
        }
    }

    pub fn layers(&self) -> (r: &Vec<Layer>)
        ensures
            layer_models(r@) == self@,
    {
        &self.layers
    }

    /// Every bias and weight of the network, in the order of `encode`.
    pub fn weights(&self) -> (r: Vec<Scalar>)
        ensures
            r@ == encode(self@),
    {
        let mut out: Vec<Scalar> = Vec::new();
        let mut i: usize = 0;
        assert(self@.take(0) =~= Seq::empty());
        while i < self.layers.len()
            invariant
                i <= self.layers@.len(),
                out@ == encode(self@.take(i as int)),
            decreases self.layers@.len() - i,
        {
            self.layers[i].encode_into(&mut out);
            proof {
                let longer = self@.take(i + 1);
                assert(longer.drop_last() =~= self@.take(i as int));
                assert(longer.last() == self.layers@[i as int]@);
            }
            i += 1;
        }
        assert(self@.take(i as int) =~= self@);
        out
    }

    /// The number of values that `from_weights` asks for with this topology,
    /// where it fits the machine's word.
    pub fn weight_count(layers: &[LayerTopology]) -> (r: Option<usize>)
        ensures
            r is Some <==> weight_count(layers@) <= usize::MAX,
            r matches Some(n) ==> n == weight_count(layers@),
    {
        let len = layers.len();
        if len < 2 {
            return Some(0);
        }
        let mut total: usize = 0;
        let mut i: usize = 0;
        assert(layers@.take(1).len() < 2);
        while i + 1 < len
            invariant
                len == layers@.len(),
                len >= 2,
                i + 1 <= len,
                total == layer_start(layers@, i as int),
            decreases len - i,
        {
            proof {
                lemma_layer_start_step(layers@, i as int);
                lemma_layer_start_bounded(layers@, i + 1);
            }
            let width = match layers[i].neurons.checked_add(1) {
                Some(width) => width,
                None => {
                    proof {
                        lemma_layer_size_grows(
                            layers@[i as int].neurons as nat,
                            layers@[i + 1].neurons as nat,
                        );
                    }
                    if layers[i + 1].neurons == 0 {
                        i += 1;
                        continue ;
                    }
                    return None;
                },
            };
            let size = match layers[i + 1].neurons.checked_mul(width) {
                Some(size) => size,
                None => {
                    return None;
                },
            };
            total = match total.checked_add(size) {
                Some(sum) => sum,
                None => {
                    return None;
                },
            };
            i += 1;
        }
        assert(layers@.take(len as int) =~= layers@);
        Some(total)
    }

    /// Reads a network of the given topology from `weights`, which hold
    /// exactly the values of `encode`: no fewer and no more.
    pub fn from_weights(layers: &[LayerTopology], weights: &[Scalar]) -> (r: Result<
        Self,
        NetworkError,
    >)
        ensures
            r is Ok <==> rejection(layers@, weights@.len()) is None,
            r matches Ok(network) ==> network@ == decode(layers@, weights@),
            r matches Err(e) ==> rejection(layers@, weights@.len()) == Some(e),
    {
        let len = layers.len();
        if len < 2 {
            return Err(NetworkError::InvalidTopology);
        }
        let mut built: Vec<Layer> = Vec::new();
        let mut cursor: usize = 0;
        let mut i: usize = 0;
        assert(layers@.take(1).len() < 2);
        while i + 1 < len
            invariant
                len == layers@.len(),
                len >= 2,
                i + 1 <= len,
                cursor == layer_start(layers@, i as int),
                cursor <= weights@.len(),
                built@.len() == i,
                forall|k: int|
                    0 <= k < i ==> (#[trigger] built@[k])@ == decode_layer(
                        layers@[k].neurons as nat,
                        layers@[k + 1].neurons as nat,
                        weights@,
                        layer_start(layers@, k) as int,
                    ),
            decreases len - i,
        {
            proof {
                lemma_layer_start_step(layers@, i as int);
                lemma_layer_start_bounded(layers@, i + 1);
            }
            match Layer::from_weights(layers[i].neurons, layers[i + 1].neurons, weights, cursor) {
                None => {
                    return Err(NetworkError::NotEnoughWeights);
                },
                Some(layer) => {
                    built.push(layer);
                    let room = weights.len() - cursor;
                    cursor = cursor + Self::size_within(
                        layers[i].neurons,
                        layers[i + 1].neurons,
                        room,
                    );
                },
            }
            i += 1;
        }
        assert(layers@.take(len as int) =~= layers@);
        if cursor < weights.len() {
            return Err(NetworkError::TooManyWeights);
        }
        let network = Network { layers: built };
        assert(network@ =~= decode(layers@, weights@));
        Ok(network)
    }

    /// The size of a layer that is known to fit within `room` values.
    fn size_within(input_size: usize, output_size: usize, room: usize) -> (size: usize)
        requires
            layer_size(input_size as nat, output_size as nat) <= room,
        ensures
            size == layer_size(input_size as nat, output_size as nat),
    {
        if output_size == 0 {
            assert(0 * (1 + input_size) == 0) by (nonlinear_arith);
            0
        } else {
            proof {
                lemma_layer_size_grows(input_size as nat, output_size as nat);
            }
            output_size * (input_size + 1)
        }
    }
}

/// A layer with at least one neuron takes at least one value per input, and
/// one more.
pub proof fn lemma_layer_size_grows(input_size: nat, output_size: nat)
    ensures
        output_size > 0 ==> layer_size(input_size, output_size) >= 1 + input_size,
        output_size == 0 ==> layer_size(input_size, output_size) == 0,
{
    assert(output_size > 0 ==> output_size * (1 + input_size) >= 1 + input_size)
        by (nonlinear_arith);
    assert(output_size == 0 ==> output_size * (1 + input_size) == 0) by (nonlinear_arith);
}

/// Layer `index + 1` begins where layer `index` ends.
pub proof fn lemma_layer_start_step(topology: Seq<LayerTopology>, index: int)
    requires
        0 <= index,
        index + 1 < topology.len(),
    ensures
        layer_start(topology, index + 1) == layer_start(topology, index) + layer_size(
            topology[index].neurons as nat,
            topology[index + 1].neurons as nat,
        ),
{
    let longer = topology.take(index + 2);
    assert(longer.drop_last() =~= topology.take(index + 1));
    assert(longer[longer.len() - 2] == topology[index]);
    assert(longer.last() == topology[index + 1]);
}

/// No layer begins beyond the end of the flat form.
pub proof fn lemma_layer_start_bounded(topology: Seq<LayerTopology>, index: int)
    requires
        0 <= index < topology.len(),
    ensures
        layer_start(topology, index) <= weight_count(topology),
    decreases topology.len() - index,
{
    if index + 1 == topology.len() {
        assert(topology.take(index + 1) =~= topology);
    } else {
        lemma_layer_start_step(topology, index);
        lemma_layer_start_bounded(topology, index + 1);
    }
}

/// The first `count` layers that `values` stand for, stored flat again, are
/// the values up to where layer `count` begins.
proof fn lemma_round_trip_prefix(topology: Seq<LayerTopology>, values: Seq<Scalar>, count: int)
    requires
        topology.len() >= 2,
        values.len() == weight_count(topology),
        0 <= count <= topology.len() - 1,
    ensures
        encode(decode(topology, values).take(count)) == values.subrange(
            0,
            layer_start(topology, count) as int,
        ),
    decreases count,
{
    let network = decode(topology, values);
    if count == 0 {
        assert(topology.take(1).len() < 2);
        assert(encode(network.take(0)) =~= values.subrange(0, 0));
    } else {
        let shorter = count - 1;
        lemma_round_trip_prefix(topology, values, shorter);
        lemma_layer_start_step(topology, shorter);
        lemma_layer_start_bounded(topology, count);
        lemma_layer_round_trip(
            topology[shorter].neurons as nat,
            topology[count].neurons as nat,
            values,
            layer_start(topology, shorter) as int,
        );
        assert(network.take(count).drop_last() =~= network.take(shorter));
        assert(network.take(count).last() == network[shorter]);
        assert(encode(network.take(count)) =~= values.subrange(
            0,
            layer_start(topology, count) as int,
        ));
    }
}

/// The network that as many values as the topology asks for stand for has
/// that topology.
pub proof fn lemma_decoded_has_topology(topology: Seq<LayerTopology>, values: Seq<Scalar>)
    requires
        topology.len() >= 2,
        values.len() == weight_count(topology),
    ensures
        has_topology(decode(topology, values), topology),
{
    let network = decode(topology, values);
    assert forall|i: int| 0 <= i < network.len() implies (#[trigger] network[i]).len()
        == topology[i + 1].neurons && feeds(network[i], topology[i].neurons as nat) by {
        let input_size = topology[i].neurons as nat;
        let output = topology[i + 1].neurons as nat;
        lemma_layer_start_step(topology, i);
        lemma_layer_start_bounded(topology, i + 1);
        assert forall|j: int| 0 <= j < network[i].len() implies (#[trigger] network[i][j]).weights.len()
            == input_size by {
            assert(0 <= j * (1 + input_size) && (j + 1) * (1 + input_size) <= output * (1
                + input_size)) by (nonlinear_arith)
                requires
                    0 <= j < output,
            ;
            assert((j + 1) * (1 + input_size) == j * (1 + input_size) + 1 + input_size)
                by (nonlinear_arith);
        }
    }
}

/// A network of a topology has layers that fit one another: it takes as many
/// inputs as the topology's first entry says and gives as many outputs as its
/// last entry says.
pub proof fn lemma_topology_is_chained(network: Seq<Seq<NeuronModel>>, topology: Seq<LayerTopology>)
    requires
        has_topology(network, topology),
    ensures
        chained(network, topology[0].neurons as nat),
        output_size(network, topology[0].neurons as nat) == topology.last().neurons,
{
    assert forall|i: int| 0 <= i < network.len() implies feeds(
        #[trigger] network[i],
        if i == 0 {
            topology[0].neurons as nat
        } else {
            network[i - 1].len()
        },
    ) by {
        if i > 0 {
            assert(network[i - 1].len() == topology[i].neurons);
        }
    }
}

/// The flat form of the first `count` layers of a network of a topology ends
/// where layer `count` begins.
proof fn lemma_encode_prefix_len(
    network: Seq<Seq<NeuronModel>>,
    topology: Seq<LayerTopology>,
    count: int,
)
    requires
        has_topology(network, topology),
        0 <= count <= network.len(),
    ensures
        encode(network.take(count)).len() == layer_start(topology, count),
    decreases count,
{
    if count == 0 {
        assert(topology.take(1).len() < 2);
    } else {
        let shorter = count - 1;
        lemma_encode_prefix_len(network, topology, shorter);
        lemma_layer_start_step(topology, shorter);
        lemma_encode_layer_len(network[shorter], topology[shorter].neurons as nat);
        assert(network.take(count).drop_last() =~= network.take(shorter));
        assert(network.take(count).last() == network[shorter]);
    }
}

/// The flat form of the first `count` layers of a network is where the flat
/// form of the whole network begins.
proof fn lemma_encode_prefix(network: Seq<Seq<NeuronModel>>, count: int)
    requires
        0 <= count <= network.len(),
    ensures
        encode(network.take(count)).len() <= encode(network).len(),
        encode(network).subrange(0, encode(network.take(count)).len() as int) == encode(
            network.take(count),
        ),
    decreases network.len() - count,
{
    if count == network.len() {
        assert(network.take(count) =~= network);
        assert(encode(network).subrange(0, encode(network).len() as int) =~= encode(network));
    } else {
        lemma_encode_prefix(network, count + 1);
        let longer = network.take(count + 1);
        assert(longer.drop_last() =~= network.take(count));
        assert(encode(network).subrange(0, encode(network.take(count)).len() as int)
            =~= encode(longer).subrange(0, encode(network.take(count)).len() as int));
        assert(encode(longer).subrange(0, encode(network.take(count)).len() as int) =~= encode(
            network.take(count),
        ));
    }
}

/// Storing a network of a topology flat and reading it back with that
/// topology gives the same network, and its flat form has as many values as
/// the topology asks for.
pub proof fn law_encode_then_decode(network: Seq<Seq<NeuronModel>>, topology: Seq<LayerTopology>)
    requires
        has_topology(network, topology),
    ensures
        encode(network).len() == weight_count(topology),
        decode(topology, encode(network)) == network,
{
    let values = encode(network);
    let read = decode(topology, values);
    lemma_encode_prefix_len(network, topology, network.len() as int);
    assert(network.take(network.len() as int) =~= network);
    assert(topology.take(topology.len() as int) =~= topology);
    assert forall|i: int| 0 <= i < network.len() implies read[i] == network[i] by {
        let input_size = topology[i].neurons as nat;
        let start = layer_start(topology, i) as int;
        let end = layer_start(topology, i + 1) as int;
        lemma_encode_prefix_len(network, topology, i);
        lemma_encode_prefix_len(network, topology, i + 1);
        lemma_encode_prefix(network, i + 1);
        lemma_layer_start_step(topology, i);
        lemma_encode_layer_len(network[i], input_size);
        let longer = network.take(i + 1);
        assert(longer.drop_last() =~= network.take(i));
        assert(longer.last() == network[i]);
        assert(values.subrange(start, end) =~= encode(longer).subrange(start, end));
        assert(encode(longer).subrange(start, end) =~= encode_layer(network[i]));
        lemma_layer_read_back(network[i], input_size, values, start);
    }
    assert(read =~= network);
}

/// Values of any other number than the topology asks for are turned down,
/// and so is every topology of fewer than two layers.
pub proof fn law_wrong_count_is_rejected(topology: Seq<LayerTopology>, count: nat)
    requires
        topology.len() < 2 || count != weight_count(topology),
    ensures
        rejection(topology, count) is Some,
        topology.len() >= 2 && count < weight_count(topology) ==> rejection(topology, count)
            == Some(NetworkError::NotEnoughWeights),
        topology.len() >= 2 && count > weight_count(topology) ==> rejection(topology, count)
            == Some(NetworkError::TooManyWeights),
{
}

/// Reading a network from exactly as many values as its topology asks for,
/// and storing it flat again, gives back the same values in the same order.
pub proof fn law_round_trip(topology: Seq<LayerTopology>, values: Seq<Scalar>)
    requires
        topology.len() >= 2,
        values.len() == weight_count(topology),
    ensures
        rejection(topology, values.len()) is None,
        encode(decode(topology, values)) == values,
{
    let network = decode(topology, values);
    let count = topology.len() - 1;
    lemma_round_trip_prefix(topology, values, count);
    assert(network.take(count) =~= network);
    assert(topology.take(count + 1) =~= topology);
    assert(values.subrange(0, values.len() as int) =~= values);
}

} // verus!
