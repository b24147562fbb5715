//! One layer: neurons that all read the same inputs.

use vstd::prelude::*;
use rand_chacha::ChaCha8Rng;
use crate::neural_network::neuron::{
    decode_neuron, encode_neuron, fires, lemma_neuron_read_back, lemma_neuron_round_trip,
    neuron_drawn, Neuron, NeuronModel,
};
use crate::scalar::Scalar;

verus! {

/// What each of `neurons` is made of, in order.
pub open spec fn neuron_models(neurons: Seq<Neuron>) -> Seq<NeuronModel> {
    Seq::new(neurons.len(), |j: int| neurons[j]@)
}

/// The number of values that a layer of `output_size` neurons with
/// `input_size` inputs each takes when stored flat.
pub open spec fn layer_size(input_size: nat, output_size: nat) -> nat {
    output_size * (1 + input_size)
}

/// A layer's values in the order in which they are stored flat: neuron after
/// neuron.
pub open spec fn encode_layer(layer: Seq<NeuronModel>) -> Seq<Scalar>
    decreases layer.len(),
{
    if layer.len() == 0 {
        Seq::empty()
    } else {
        encode_layer(layer.drop_last()) + encode_neuron(layer.last())
    }
}

/// The layer that `layer_size(input_size, output_size)` values starting at
/// `start` stand for.
pub open spec fn decode_layer(
    input_size: nat,
    output_size: nat,
    values: Seq<Scalar>,
    start: int,
) -> Seq<NeuronModel> {
    Seq::new(
        output_size,
        |j: int| decode_neuron(input_size, values, start + j * (1 + input_size)),
    )
}

/// Whether every neuron of `layer` has one weight for each of `input_size`
/// inputs.
pub open spec fn feeds(layer: Seq<NeuronModel>, input_size: nat) -> bool {
    forall|j: int| 0 <= j < layer.len() ==> (#[trigger] layer[j]).weights.len() == input_size
}

/// Whether `outputs` holds, for each neuron of the layer in order, a value
/// that `activate` may give for that neuron on `inputs`.
pub open spec fn layer_yields<F: Fn(&Neuron, &Vec<Scalar>) -> Scalar>(
    activate: F,
    layer: Seq<NeuronModel>,
    inputs: Seq<Scalar>,
    outputs: Seq<Scalar>,
) -> bool {
    &&& outputs.len() == layer.len()
    &&& forall|j: int|
        0 <= j < layer.len() ==> fires(activate, layer[j], inputs, #[trigger] outputs[j])
}

/// Whether every bias and weight of the layer is a value that `draw` may
/// draw.
pub open spec fn layer_drawn<F: Fn(&mut ChaCha8Rng) -> Scalar>(
    draw: F,
    layer: Seq<NeuronModel>,
) -> bool {
    forall|j: int| 0 <= j < layer.len() ==> neuron_drawn(draw, #[trigger] layer[j])
}

pub struct Layer {
    pub(crate) neurons: Vec<Neuron>,
}

impl View for Layer {
    type V = Seq<NeuronModel>;

    closed spec fn view(&self) -> Seq<NeuronModel> {
        neuron_models(self.neurons@)
    }
}

impl Layer {
    /// The outputs of the layer on `inputs`: what `activate` gives for each
    /// neuron in turn. `activate` must take any neuron with as many values as
    /// the neuron has weights, and every neuron of the layer must have one
    /// weight for each of the inputs.
    pub fn propagate<F: Fn(&Neuron, &Vec<Scalar>) -> Scalar>(
        &self,
        inputs: Vec<Scalar>,
        activate: &F,
    ) -> (outputs: Vec<Scalar>)
        requires
            feeds(self@, inputs@.len()),
            forall|neuron: Neuron, values: Vec<Scalar>|
                neuron@.weights.len() == values@.len() ==> #[trigger] call_requires(
                    *activate,
                    (&neuron, &values),
                ),
        ensures
            layer_yields(*activate, self@, inputs@, outputs@),
    {
        let mut outputs: Vec<Scalar> = Vec::new();
        let mut j: usize = 0;
        while j < self.neurons.len()
            invariant
                j <= self.neurons@.len(),
                outputs@.len() == j,
                feeds(self@, inputs@.len()),
                forall|neuron: Neuron, values: Vec<Scalar>|
                    neuron@.weights.len() == values@.len() ==> #[trigger] call_requires(
                        *activate,
                        (&neuron, &values),
                    ),
                forall|k: int| 0 <= k < j ==> fires(*activate, self@[k], inputs@, #[trigger] outputs@[k]),
            decreases self.neurons@.len() - j,
        {
            assert(self@[j as int] == self.neurons@[j as int]@);
            let output = self.neurons[j].propagate(&inputs, activate);
            outputs.push(output);
            j += 1;
        }
        outputs
    }

    pub fn new(neurons: Vec<Neuron>) -> (r: Self)
        ensures
            r@ == neuron_models(neurons@),
    {
        Layer { neurons }
    }

    pub fn neurons(&self) -> (r: &Vec<Neuron>)
        ensures
            neuron_models(r@) == self@,
    {
        &self.neurons
    }

    /// A layer of `output_neurons` neurons with `input_neurons` inputs each,
    /// drawn neuron after neuron from the random source by `draw`.
    pub fn random<F: Fn(&mut ChaCha8Rng) -> Scalar>(
        rng: &mut ChaCha8Rng,
        input_neurons: usize,
        output_neurons: usize,
        draw: &F,
    ) -> (r: Self)
        requires
            forall|source: &mut ChaCha8Rng| #[trigger] call_requires(*draw, (source,)),
        ensures
            r@.len() == output_neurons,
            feeds(r@, input_neurons as nat),
            layer_drawn(*draw, r@),
    {
        let mut neurons: Vec<Neuron> = Vec::new();
        let mut j: usize = 0;
        while j < output_neurons
            invariant
                j <= output_neurons,
                neurons@.len() == j,
                forall|k: int| 0 <= k < j ==> (#[trigger] neurons@[k])@.weights.len() == input_neurons,
                forall|k: int| 0 <= k < j ==> neuron_drawn(*draw, (#[trigger] neurons@[k])@),
                forall|source: &mut ChaCha8Rng| #[trigger] call_requires(*draw, (source,)),
            decreases output_neurons - j,
        {
            let neuron = Neuron::random(rng, input_neurons, draw);
            neurons.push(neuron);
            j += 1;
        }
        Layer { neurons }
    }

    /// Appends the values of each neuron in turn to `out`.
    pub fn encode_into(&self, out: &mut Vec<Scalar>)
        ensures
            final(out)@ == old(out)@ + encode_layer(self@),
    {
        let mut j: usize = 0;
        assert(self@.take(0) =~= Seq::empty());
        while j < self.neurons.len()
            invariant
                j <= self.neurons@.len(),
                out@ == old(out)@ + encode_layer(self@.take(j as int)),
            decreases self.neurons@.len() - j,
        {
            self.neurons[j].encode_into(out);
            proof {
                let longer = self@.take(j + 1);
                assert(longer.drop_last() =~= self@.take(j as int));
                assert(longer.last() == self.neurons@[j as int]@);
                assert(out@ =~= old(out)@ + encode_layer(longer));
            }
            j += 1;
        }
        assert(self@.take(j as int) =~= self@);
    }

    /// Reads a layer of `output_size` neurons with `input_size` inputs each
    /// from `values`, starting at `start`. `None` when fewer than
    /// `layer_size(input_size, output_size)` values are left there.
    pub fn from_weights(
        input_size: usize,
        output_size: usize,
        values: &[Scalar],
        start: usize,
    ) -> (r: Option<Self>)
        requires
            start <= values@.len(),
        ensures
            r is Some <==> start + layer_size(input_size as nat, output_size as nat)
                <= values@.len(),
            r matches Some(layer) ==> layer@ == decode_layer(
                input_size as nat,
                output_size as nat,
                values@,
                start as int,
            ),
    {
        let len = values.len();
        let ghost width = 1 + input_size as int;
        let mut neurons: Vec<Neuron> = Vec::new();
        let mut cursor: usize = start;
        let mut j: usize = 0;
        while j < output_size
            invariant
                j <= output_size,
                width == 1 + input_size,
                values@.len() == len,
                cursor == start + j * width,
                cursor <= len,
                neurons@.len() == j,
                forall|k: int|
                    0 <= k < j ==> (#[trigger] neurons@[k])@ == decode_neuron(
                        input_size as nat,
                        values@,
                        start + k * width,
                    ),
            decreases output_size - j,
        {
            match Neuron::from_weights(input_size, values, cursor) {
                None => {
                    proof {
                        assert((j + 1) * width <= output_size * width) by (nonlinear_arith)
                            requires
                                j + 1 <= output_size,
                                width >= 0,
                        ;
                        assert((j + 1) * width == j * width + width) by (nonlinear_arith);
                    }
                    return None;
                },
                Some(neuron) => {
                    neurons.push(neuron);
                    proof {
                        assert((j + 1) * width == j * width + width) by (nonlinear_arith);
                    }
                    cursor = cursor + 1 + input_size;
                    j += 1;
                },
            }
        }
        let layer = Layer { neurons };
        assert(layer@ =~= decode_layer(
            input_size as nat,
            output_size as nat,
            values@,
            start as int,
        ));
        Some(layer)
    }
}

/// A layer's flat form has one value per bias and weight.
pub proof fn lemma_encode_layer_len(layer: Seq<NeuronModel>, input_size: nat)
    requires
        feeds(layer, input_size),
    ensures
        encode_layer(layer).len() == layer_size(input_size, layer.len()),
    decreases layer.len(),
{
    if layer.len() > 0 {
        lemma_encode_layer_len(layer.drop_last(), input_size);
        assert(layer.len() * (1 + input_size) == (layer.len() - 1) * (1 + input_size) + (1
            + input_size)) by (nonlinear_arith);
    } else {
        assert(layer.len() * (1 + input_size) == 0) by (nonlinear_arith)
            requires
                layer.len() == 0,
        ;
    }
}

/// The flat form of neuron `index` lies in the layer's flat form where the
/// flat forms of the neurons before it end.
pub proof fn lemma_encode_layer_part(layer: Seq<NeuronModel>, input_size: nat, index: int)
    requires
        feeds(layer, input_size),
        0 <= index < layer.len(),
    ensures
        0 <= index * (1 + input_size),
        index * (1 + input_size) + 1 + input_size <= encode_layer(layer).len(),
        encode_layer(layer).subrange(
            index * (1 + input_size),
            index * (1 + input_size) + 1 + input_size,
        ) == encode_neuron(layer[index]),
    decreases layer.len(),
{
    let width = 1 + input_size;
    let shorter = layer.drop_last();
    lemma_encode_layer_len(layer, input_size);
    lemma_encode_layer_len(shorter, input_size);
    assert(0 <= index * width && index * width + width <= layer.len() * width) by (nonlinear_arith)
        requires
            0 <= index < layer.len(),
            width >= 0,
    ;
    assert((layer.len() - 1) * width + width == layer.len() * width) by (nonlinear_arith);
    if index == layer.len() - 1 {
        assert(encode_layer(layer).subrange(index * width, index * width + width) =~= encode_neuron(
            layer[index],
        ));
    } else {
        lemma_encode_layer_part(shorter, input_size, index);
        assert(index * width + width <= (layer.len() - 1) * width) by (nonlinear_arith)
            requires
                index + 1 <= layer.len() - 1,
                width >= 0,
        ;
        assert(encode_layer(layer).subrange(index * width, index * width + width)
            =~= encode_layer(shorter).subrange(index * width, index * width + width));
    }
}

/// Where a layer's flat form lies in `values` from `start` on, reading a
/// layer there gives that layer.
pub proof fn lemma_layer_read_back(
    layer: Seq<NeuronModel>,
    input_size: nat,
    values: Seq<Scalar>,
    start: int,
)
    requires
        feeds(layer, input_size),
        0 <= start,
        start + layer_size(input_size, layer.len()) <= values.len(),
        values.subrange(start, start + layer_size(input_size, layer.len())) == encode_layer(layer),
    ensures
        decode_layer(input_size, layer.len(), values, start) == layer,
{
    let width = 1 + input_size;
    let read = decode_layer(input_size, layer.len(), values, start);
    let part = values.subrange(start, start + layer_size(input_size, layer.len()));
    assert forall|j: int| 0 <= j < layer.len() implies read[j] == layer[j] by {
        lemma_encode_layer_part(layer, input_size, j);
        lemma_encode_layer_len(layer, input_size);
        assert(values.subrange(start + j * width, start + j * width + width) =~= part.subrange(
            j * width,
            j * width + width,
        ));
        lemma_neuron_read_back(layer[j], values, start + j * width);
    }
    assert(read =~= layer);
}

/// Reading a layer and storing it flat again gives back the values read.
pub proof fn lemma_layer_round_trip(
    input_size: nat,
    output_size: nat,
    values: Seq<Scalar>,
    start: int,
)
    requires
        0 <= start,
        start + layer_size(input_size, output_size) <= values.len(),
    ensures
        encode_layer(decode_layer(input_size, output_size, values, start)) == values.subrange(
            start,
            start + layer_size(input_size, output_size),
        ),
    decreases output_size,
{
    let layer = decode_layer(input_size, output_size, values, start);
    let width = 1 + input_size;
    if output_size == 0 {
        assert(layer_size(input_size, output_size) == 0) by (nonlinear_arith)
            requires
                output_size == 0,
                layer_size(input_size, output_size) == output_size * (1 + input_size),
        ;
        assert(encode_layer(layer) =~= values.subrange(start, start + 0));
    } else {
        let shorter = (output_size - 1) as nat;
        assert(output_size * width == shorter * width + width) by (nonlinear_arith)
            requires
                shorter == output_size - 1,
        ;
        assert(shorter * width >= 0) by (nonlinear_arith)
            requires
                shorter >= 0,
                width >= 0,
        ;
        assert(layer.drop_last() =~= decode_layer(input_size, shorter, values, start));
        lemma_layer_round_trip(input_size, shorter, values, start);
        lemma_neuron_round_trip(input_size, values, start + shorter * width);
        assert(layer.last() == decode_neuron(input_size, values, start + shorter * width));
        assert(encode_layer(layer) =~= values.subrange(
            start,
            start + layer_size(input_size, output_size),
        ));
    }
}

} // verus!
