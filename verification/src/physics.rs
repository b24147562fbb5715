//! The arithmetic of the world.
//!
//! How far two points lie apart, what an eye sees, what a neuron makes of its
//! inputs, where an animal gets in a step: all of that is arithmetic on real
//! numbers, which this crate leaves to the caller. A `Physics` holds the
//! functions that do it, and the two draws of real numbers that a step may
//! make from the random source.

use vstd::prelude::*;
use rand_chacha::ChaCha8Rng;
use crate::neural_network::neuron::Neuron;
use crate::scalar::Scalar;
use crate::world::animal::eyes::{Eyes, Sighting};
use crate::world::{Body, Position};

verus! {

pub struct Physics<D, S, U, A, T, V, B, P> {
    /// How far two points lie apart.
    pub distance: D,
    /// What eyes at a place, looking in a direction, make of food at another
    /// place: nothing where it is out of view.
    pub sight: S,
    /// The sum of two numbers.
    pub sum: U,
    /// The output of a neuron on its inputs.
    pub activate: A,
    /// The heading that a heading becomes when it changes by an angle.
    pub turn: T,
    /// Where a body is after one step.
    pub advance: V,
    /// The body of a new animal.
    pub draw_body: B,
    /// A place for food.
    pub draw_place: P,
}

impl<D, S, U, A, T, V, B, P> Physics<D, S, U, A, T, V, B, P> where
    D: Fn(Position, Position) -> Scalar,
    S: Fn(&Eyes, Position, Scalar, Position) -> Option<Sighting>,
    U: Fn(Scalar, Scalar) -> Scalar,
    A: Fn(&Neuron, &Vec<Scalar>) -> Scalar,
    T: Fn(Scalar, Scalar) -> Scalar,
    V: Fn(Body) -> Position,
    B: Fn(&mut ChaCha8Rng) -> Body,
    P: Fn(&mut ChaCha8Rng) -> Position,
 {
    /// Whether every function can be called on whatever it is given; the
    /// output of a neuron is only ever asked for on as many inputs as the
    /// neuron has weights.
    pub open spec fn ready(&self) -> bool {
        &&& forall|a: Position, b: Position| #[trigger] call_requires(self.distance, (a, b))
        &&& forall|eyes: Eyes, place: Position, heading: Scalar, food: Position| #[trigger]
            call_requires(self.sight, (&eyes, place, heading, food))
        &&& forall|a: Scalar, b: Scalar| #[trigger] call_requires(self.sum, (a, b))
        &&& forall|neuron: Neuron, values: Vec<Scalar>|
            neuron@.weights.len() == values@.len() ==> #[trigger] call_requires(
                self.activate,
                (&neuron, &values),
            )
        &&& forall|a: Scalar, b: Scalar| #[trigger] call_requires(self.turn, (a, b))
        &&& forall|body: Body| #[trigger] call_requires(self.advance, (body,))
        &&& forall|source: &mut ChaCha8Rng| #[trigger] call_requires(self.draw_body, (source,))
        &&& forall|source: &mut ChaCha8Rng| #[trigger] call_requires(self.draw_place, (source,))
    }
}

} // verus!
