//! One neuron: a bias and one weight per input.

use vstd::prelude::*;
use rand_chacha::ChaCha8Rng;
use crate::scalar::Scalar;

verus! {

/// What a neuron is made of.
pub struct NeuronModel {
    pub bias: Scalar,
    pub weights: Seq<Scalar>,
}

/// A neuron's values in the order in which they are stored flat: the bias,
/// then the weights.
pub open spec fn encode_neuron(neuron: NeuronModel) -> Seq<Scalar> {
    seq![neuron.bias] + neuron.weights
}

/// The neuron that `input_size + 1` values starting at `start` stand for.
pub open spec fn decode_neuron(input_size: nat, values: Seq<Scalar>, start: int) -> NeuronModel {
    NeuronModel {
        bias: values[start],
        weights: values.subrange(start + 1, start + 1 + input_size),
    }
}

/// Whether `output` is a value that `activate` may give for a neuron made
/// as `neuron` is on the given inputs.
pub open spec fn fires<F: Fn(&Neuron, &Vec<Scalar>) -> Scalar>(
    activate: F,
    neuron: NeuronModel,
    inputs: Seq<Scalar>,
    output: Scalar,
) -> bool {
    exists|made: Neuron, given: Vec<Scalar>|
        made@ == neuron && given@ == inputs && #[trigger] call_ensures(
            activate,
            (&made, &given),
            output,
        )
}

/// Whether `value` is a value that `draw` may draw from the random source.
pub open spec fn drawn<F: Fn(&mut ChaCha8Rng) -> Scalar>(draw: F, value: Scalar) -> bool {
    exists|source: &mut ChaCha8Rng| #[trigger] call_ensures(draw, (source,), value)
}

/// Whether the bias and every weight of the neuron is a value that `draw`
/// may draw.
pub open spec fn neuron_drawn<F: Fn(&mut ChaCha8Rng) -> Scalar>(
    draw: F,
    neuron: NeuronModel,
) -> bool {
    &&& drawn(draw, neuron.bias)
    &&& forall|k: int| 0 <= k < neuron.weights.len() ==> drawn(draw, #[trigger] neuron.weights[k])
}

pub struct Neuron {
    pub(crate) bias: Scalar,
    pub(crate) weights: Vec<Scalar>,
}

impl View for Neuron {
    type V = NeuronModel;

    closed spec fn view(&self) -> NeuronModel {
        NeuronModel { bias: self.bias, weights: self.weights@ }
    }
}

impl Neuron {
    pub fn new(bias: Scalar, weights: Vec<Scalar>) -> (r: Self)
        ensures
            r@ == (NeuronModel { bias, weights: weights@ }),
    {
        Neuron { bias, weights }
    }

    pub fn bias(&self) -> (r: Scalar)
        ensures
            r == self@.bias,
    {
        self.bias
    }

    pub fn weights(&self) -> (r: &Vec<Scalar>)
        ensures
            r@ == self@.weights,
    {
        &self.weights
    }

    /// The output of the neuron on `inputs`, of which there must be as many
    /// as the neuron has weights: what `activate` gives for the two.
    pub fn propagate<F: Fn(&Neuron, &Vec<Scalar>) -> Scalar>(
        &self,
        inputs: &Vec<Scalar>,
        activate: &F,
    ) -> (output: Scalar)
        requires
            inputs@.len() == self@.weights.len(),
            call_requires(*activate, (self, inputs)),
        ensures
            fires(*activate, self@, inputs@, output),
    {
        activate(self, inputs)
    }

    /// A neuron of `input_neurons` inputs whose bias and weights are drawn
    /// from the random source by `draw`: the bias first, then the weights in
    /// order.
    pub fn random<F: Fn(&mut ChaCha8Rng) -> Scalar>(
        rng: &mut ChaCha8Rng,
        input_neurons: usize,
        draw: &F,
    ) -> (r: Self)
        requires
            forall|source: &mut ChaCha8Rng| #[trigger] call_requires(*draw, (source,)),
        ensures
            r@.weights.len() == input_neurons,
            neuron_drawn(*draw, r@),
    {
        let bias = draw(rng);
        let mut weights: Vec<Scalar> = Vec::new();
        let mut k: usize = 0;
        while k < input_neurons
            invariant
                k <= input_neurons,
                weights@.len() == k,
                forall|j: int| 0 <= j < k ==> drawn(*draw, #[trigger] weights@[j]),
                forall|source: &mut ChaCha8Rng| #[trigger] call_requires(*draw, (source,)),
            decreases input_neurons - k,
        {
            let weight = draw(rng);
            weights.push(weight);
            k += 1;
        }
        Neuron { bias, weights }
    }

    /// Appends the bias and then the weights to `out`.
    pub fn encode_into(&self, out: &mut Vec<Scalar>)
        ensures
            final(out)@ == old(out)@ + encode_neuron(self@),
    {
        out.push(self.bias);
        let mut k: usize = 0;
        while k < self.weights.len()
            invariant
                k <= self.weights@.len(),
                out@ == old(out)@ + seq![self.bias] + self.weights@.take(k as int),
            decreases self.weights@.len() - k,
        {
            out.push(self.weights[k]);
            k += 1;
            assert(out@ =~= old(out)@ + seq![self.bias] + self.weights@.take(k as int));
        }
        assert(self.weights@.take(k as int) =~= self.weights@);
        assert(out@ =~= old(out)@ + encode_neuron(self@));
    }

    /// Reads a neuron of `input_size` inputs from `values`, starting at
    /// `start`: the bias first, then the weights. `None` when fewer than
    /// `input_size + 1` values are left there.
    pub fn from_weights(input_size: usize, values: &[Scalar], start: usize) -> (r: Option<Self>)
        requires
            start <= values@.len(),
        ensures
            r is Some <==> start + 1 + input_size <= values@.len(),
            r matches Some(neuron) ==> neuron@ == decode_neuron(
                input_size as nat,
                values@,
                start as int,
            ),
    {
        let len = values.len();
        if len - start <= input_size {
            return None;
        }
        let bias = values[start];
        let mut weights: Vec<Scalar> = Vec::new();
        let mut k: usize = 0;
        while k < input_size
            invariant
                k <= input_size,
                start + 1 + input_size <= values@.len() == len,
                weights@ == values@.subrange(start + 1, start + 1 + k),
            decreases input_size - k,
        {
            weights.push(values[start + 1 + k]);
            k += 1;
            assert(weights@ =~= values@.subrange(start + 1, start + 1 + k));
        }
        Some(Neuron { bias, weights })
    }
}

/// Reading a neuron and storing it flat again gives back the values read.
pub proof fn lemma_neuron_round_trip(input_size: nat, values: Seq<Scalar>, start: int)
    requires
        0 <= start,
        start + 1 + input_size <= values.len(),
    ensures
        encode_neuron(decode_neuron(input_size, values, start)) == values.subrange(
            start,
            start + 1 + input_size,
        ),
{
    assert(encode_neuron(decode_neuron(input_size, values, start)) =~= values.subrange(
        start,
        start + 1 + input_size,
    ));
}

/// Where a neuron's flat form lies in `values` from `start` on, reading a
/// neuron there gives that neuron.
pub proof fn lemma_neuron_read_back(neuron: NeuronModel, values: Seq<Scalar>, start: int)
    requires
        0 <= start,
        start + 1 + neuron.weights.len() <= values.len(),
        values.subrange(start, start + 1 + neuron.weights.len()) == encode_neuron(neuron),
    ensures
        decode_neuron(neuron.weights.len(), values, start) == neuron,
{
    let len = neuron.weights.len();
    let part = values.subrange(start, start + 1 + len);
    let read = decode_neuron(len, values, start);
    assert(part[0] == values[start]);
    assert(encode_neuron(neuron)[0] == neuron.bias);
    assert forall|k: int| 0 <= k < len implies read.weights[k] == neuron.weights[k] by {
        assert(part[k + 1] == values[start + 1 + k]);
        assert(encode_neuron(neuron)[k + 1] == neuron.weights[k]);
    }
    assert(read.weights =~= neuron.weights);
}

} // verus!
