//! One animal of the world.

pub mod brain;
pub mod eyes;

use vstd::prelude::*;
use rand_chacha::ChaCha8Rng;
use crate::chromosome::Chromosome;
use crate::neural_network::neuron::{Neuron, NeuronModel};
use crate::neural_network::{
    decode, encode, has_topology, law_encode_then_decode, lemma_topology_is_chained,
    network_drawn, network_yields, NetworkError,
};
use crate::scalar::Scalar;
use crate::world::animal::brain::{
    brain_topology, lemma_brain_genes, lemma_brain_weight_count, Brain, BRAIN_GENES, OUTPUTS,
};
use crate::world::animal::eyes::{default_eyes, places, sees, Eyes, Sighting, CELLS};
use crate::world::food::Food;
use crate::world::{Body, Position};

verus! {

/// The lowest speed of an animal: 0.0006 of the world's width a step.
pub const SPEED_MIN_BITS: u32 = 0x3A1D_4952;

/// The highest speed of an animal: 0.0012 of the world's width a step.
pub const SPEED_MAX_BITS: u32 = 0x3A9D_4952;

/// The most by which the speed changes in a step, up or down: 0.2.
pub const SPEED_ACCEL_BITS: u32 = 0x3E4C_CCCD;

/// The most by which the heading changes in a step, either way: half of pi.
pub const ROTATION_ACCEL_BITS: u32 = 0x3FC9_0FDB;

/// The speed that an animal takes when `speed` is asked of it: `speed` held
/// between the lowest and the highest.
pub open spec fn bounded_speed(speed: Scalar) -> Scalar {
    speed.clamped(Scalar { bits: SPEED_MIN_BITS }, Scalar { bits: SPEED_MAX_BITS })
}

/// Whether `speed` is neither below the lowest speed nor above the highest.
pub open spec fn is_bounded_speed(speed: Scalar) -> bool {
    !speed.is_less(Scalar { bits: SPEED_MIN_BITS }) && !(Scalar { bits: SPEED_MAX_BITS }).is_less(
        speed,
    )
}

/// The change of speed that the brain's first output asks for: the output
/// held within the most that the speed changes in a step.
pub open spec fn speed_change(output: Scalar) -> Scalar {
    output.clamped(
        (Scalar { bits: SPEED_ACCEL_BITS }).opposite(),
        Scalar { bits: SPEED_ACCEL_BITS },
    )
}

/// The change of heading that the brain's second output asks for: the output
/// held within the most that the heading changes in a step.
pub open spec fn rotation_change(output: Scalar) -> Scalar {
    output.clamped(
        (Scalar { bits: ROTATION_ACCEL_BITS }).opposite(),
        Scalar { bits: ROTATION_ACCEL_BITS },
    )
}

/// What an animal's brain asks for in a step: a change of speed and a change
/// of heading.
#[derive(Clone, Copy, Debug)]
pub struct Response {
    pub speed: Scalar,
    pub rotation: Scalar,
}

/// Whether `response` is what the outputs of the brain ask for: there are
/// two of them, the first for the speed and the second for the heading.
pub open spec fn asks_for(outputs: Seq<Scalar>, response: Response) -> bool {
    &&& outputs.len() == OUTPUTS
    &&& response.speed == speed_change(outputs[0])
    &&& response.rotation == rotation_change(outputs[1])
}

/// The network of the brain that has the given genes.
pub open spec fn brain_of(genes: Seq<Scalar>) -> Seq<Seq<NeuronModel>> {
    decode(brain_topology(CELLS), genes)
}

/// Whether `response` is what a brain of the given genes may ask for on
/// `vision`, where `activate` gives the output of a single neuron.
pub open spec fn answers<F: Fn(&Neuron, &Vec<Scalar>) -> Scalar>(
    activate: F,
    genes: Seq<Scalar>,
    vision: Seq<Scalar>,
    response: Response,
) -> bool {
    exists|outputs: Seq<Scalar>| #[trigger]
        network_yields(activate, brain_of(genes), vision, outputs) && asks_for(outputs, response)
}

/// The animal after one more meal: the meal is counted, unless the count is
/// already the largest that the machine's word holds.
pub open spec fn fed(animal: AnimalModel) -> AnimalModel {
    AnimalModel {
        satiation: if animal.satiation < usize::MAX {
            animal.satiation + 1
        } else {
            animal.satiation
        },
        ..animal
    }
}

/// Whether `body` is a body that `draw_body` may draw from the random
/// source.
pub open spec fn drawn_body<B: Fn(&mut ChaCha8Rng) -> Body>(draw_body: B, body: Body) -> bool {
    exists|source: &mut ChaCha8Rng| #[trigger] call_ensures(draw_body, (source,), body)
}

/// Whether the body of the animal is one that `draw_body` may draw from the
/// random source, but for its speed, which is the speed drawn held between
/// the lowest and the highest.
pub open spec fn has_drawn_body<B: Fn(&mut ChaCha8Rng) -> Body>(
    draw_body: B,
    animal: AnimalModel,
) -> bool {
    exists|body: Body| #[trigger]
        drawn_body(draw_body, body) && animal.position == body.position && animal.rotation
            == body.rotation && animal.speed == bounded_speed(body.speed)
}

/// Whether the animal is one that is drawn from the random source: it is
/// hungry, its genes are values that `draw_weight` may draw, as many as a
/// brain has, and its body is one that `draw_body` may draw.
pub open spec fn drawn_animal<W, B>(draw_weight: W, draw_body: B, animal: AnimalModel) -> bool where
    W: Fn(&mut ChaCha8Rng) -> Scalar,
    B: Fn(&mut ChaCha8Rng) -> Body,
 {
    &&& animal.satiation == 0
    &&& animal.genes.len() == BRAIN_GENES
    &&& network_drawn(draw_weight, brain_of(animal.genes))
    &&& has_drawn_body(draw_body, animal)
}

/// The body of an animal.
pub open spec fn body_of(animal: AnimalModel) -> Body {
    Body { position: animal.position, rotation: animal.rotation, speed: animal.speed }
}

/// Whether `after` is the animal `before` one step further on its way: it is
/// where `advance` says that its body gets, and nothing else about it has
/// changed.
pub open spec fn moves<V: Fn(Body) -> Position>(
    advance: V,
    before: AnimalModel,
    after: AnimalModel,
) -> bool {
    &&& call_ensures(advance, (body_of(before),), after.position)
    &&& after == (AnimalModel { position: after.position, ..before })
}

/// Whether `after` is the animal `before` once it has answered what it sees
/// of food at the given places: its eyes see `vision`, its brain asks for
/// `response` on it, its speed becomes the sum of its speed and the change
/// asked for, held between the lowest speed and the highest, its heading
/// turns by the change asked for, and nothing else about it changes.
pub open spec fn responds_by<S, U, A, T>(
    sight: S,
    sum: U,
    activate: A,
    turn: T,
    foods: Seq<Position>,
    before: AnimalModel,
    after: AnimalModel,
    vision: Seq<Scalar>,
    response: Response,
    speed: Scalar,
) -> bool where
    S: Fn(&Eyes, Position, Scalar, Position) -> Option<Sighting>,
    U: Fn(Scalar, Scalar) -> Scalar,
    A: Fn(&Neuron, &Vec<Scalar>) -> Scalar,
    T: Fn(Scalar, Scalar) -> Scalar,
 {
    &&& sees(sight, sum, default_eyes(), before.position, before.rotation, foods, vision)
    &&& answers(activate, before.genes, vision, response)
    &&& call_ensures(sum, (before.speed, response.speed), speed)
    &&& call_ensures(turn, (before.rotation, response.rotation), after.rotation)
    &&& after == (AnimalModel {
        rotation: after.rotation,
        speed: bounded_speed(speed),
        ..before
    })
}

/// Whether `after` is the animal `before` once it has answered what it sees
/// of food at the given places.
pub open spec fn responds<S, U, A, T>(
    sight: S,
    sum: U,
    activate: A,
    turn: T,
    foods: Seq<Position>,
    before: AnimalModel,
    after: AnimalModel,
) -> bool where
    S: Fn(&Eyes, Position, Scalar, Position) -> Option<Sighting>,
    U: Fn(Scalar, Scalar) -> Scalar,
    A: Fn(&Neuron, &Vec<Scalar>) -> Scalar,
    T: Fn(Scalar, Scalar) -> Scalar,
 {
    exists|vision: Seq<Scalar>, response: Response, speed: Scalar|
        responds_by(sight, sum, activate, turn, foods, before, after, vision, response, speed)
}

/// What an animal is: where it is, where it is headed and how fast, the genes
/// of its brain, and how often it has eaten in this generation.
pub struct AnimalModel {
    pub position: Position,
    pub rotation: Scalar,
    pub speed: Scalar,
    pub genes: Seq<Scalar>,
    pub satiation: nat,
}

/// An animal. Its eyes are the default ones, and its brain is one that fits
/// them: it has `BRAIN_GENES` genes. Its speed is never below the lowest
/// speed nor above the highest.
pub struct Animal {
    position: Position,
    rotation: Scalar,
    speed: Scalar,
    eyes: Eyes,
    brain: Brain,
    satiation: usize,
}

impl View for Animal {
    type V = AnimalModel;

    closed spec fn view(&self) -> AnimalModel {
        AnimalModel {
            position: self.position,
            rotation: self.rotation,
            speed: self.speed,
            genes: encode(self.brain@),
            satiation: self.satiation as nat,
        }
    }
}

impl Animal {
    #[verifier::type_invariant]
    spec fn valid(self) -> bool {
        &&& self.eyes == default_eyes()
        &&& self.eyes.cell_count() == CELLS
        &&& has_topology(self.brain@, brain_topology(CELLS))
        &&& is_bounded_speed(self.speed)
    }

    /// A hungry animal at the given place, with the default eyes and the
    /// brain whose genes are those of `chromosome`, which must hold exactly
    /// `BRAIN_GENES` of them. Its speed is `speed` held between the lowest
    /// and the highest.
    pub fn from_chromosome(
        chromosome: Chromosome,
        position: Position,
        rotation: Scalar,
        speed: Scalar,
    ) -> (r: Result<Self, NetworkError>)
        ensures
            r is Ok <==> chromosome@.len() == BRAIN_GENES,
            r matches Ok(animal) ==> animal@ == (AnimalModel {
                position,
                rotation,
                speed: bounded_speed(speed),
                genes: chromosome@,
                satiation: 0,
            }),
            r matches Err(e) ==> e == if chromosome@.len() < BRAIN_GENES {
                NetworkError::NotEnoughWeights
            } else {
                NetworkError::TooManyWeights
            },
    {
        let eyes = Eyes::default();
        proof {
            lemma_brain_genes();
        }
        let speed = Animal::bound_speed(speed);
        match Brain::from_chromosome(chromosome, &eyes) {
            Ok(brain) => Ok(Animal { position, rotation, speed, eyes, brain, satiation: 0 }),
            Err(e) => Err(e),
        }
    }

    /// A hungry animal with the default eyes, drawn from the random source:
    /// first the genes of its brain, which `draw_weight` draws one by one in
    /// the order in which they are stored flat, then its body, which
    /// `draw_body` draws. Its speed is the one drawn, held between the lowest
    /// and the highest.
    pub fn random<W, B>(rng: &mut ChaCha8Rng, draw_weight: &W, draw_body: &B) -> (r: Self) where
        W: Fn(&mut ChaCha8Rng) -> Scalar,
        B: Fn(&mut ChaCha8Rng) -> Body,

        requires
            forall|source: &mut ChaCha8Rng| #[trigger] call_requires(*draw_weight, (source,)),
            forall|source: &mut ChaCha8Rng| #[trigger] call_requires(*draw_body, (source,)),
        ensures
            drawn_animal(*draw_weight, *draw_body, r@),
    {
        let eyes = Eyes::default();
        let brain = match Brain::random(rng, &eyes, draw_weight) {
            Some(brain) => brain,
            None => {
                assert(false);
                vstd::pervasive::unreached()
            },
        };
        let body = draw_body(rng);
        assert(drawn_body(*draw_body, body));
        let speed = Animal::bound_speed(body.speed);
        proof {
            lemma_brain_genes();
            lemma_brain_weight_count(CELLS);
            law_encode_then_decode(brain@, brain_topology(CELLS));
        }
        Animal {
            position: body.position,
            rotation: body.rotation,
            speed,
            eyes,
            brain,
            satiation: 0,
        }
    }

    /// `speed` held between the lowest speed and the highest.
    pub fn bound_speed(speed: Scalar) -> (r: Scalar)
        ensures
            r == bounded_speed(speed),
            is_bounded_speed(r),
    {
        speed.clamp(Scalar::from_bits(SPEED_MIN_BITS), Scalar::from_bits(SPEED_MAX_BITS))
    }

    pub fn position(&self) -> (r: Position)
        ensures
            r == self@.position,
    {
        self.position
    }

    pub fn rotation(&self) -> (r: Scalar)
        ensures
            r == self@.rotation,
    {
        self.rotation
    }

    pub fn speed(&self) -> (r: Scalar)
        ensures
            r == self@.speed,
            is_bounded_speed(r),
            bounded_speed(r) == r,
    {
        proof {
            use_type_invariant(self);
        }
        self.speed
    }

    pub fn satiation(&self) -> (r: usize)
        ensures
            r == self@.satiation,
    {
        self.satiation
    }

    pub fn eyes(&self) -> (r: &Eyes)
        ensures
            *r == default_eyes(),
            r.cell_count() == CELLS,
    {
        proof {
            use_type_invariant(self);
        }
        &self.eyes
    }

    pub fn brain(&self) -> (r: &Brain)
        ensures
            encode(r@) == self@.genes,
            has_topology(r@, brain_topology(CELLS)),
    {
        proof {
            use_type_invariant(self);
        }
        &self.brain
    }

    /// The genes of the animal: those of its brain.
    pub fn as_chromosome(&self) -> (r: Chromosome)
        ensures
            r@ == self@.genes,
            r@.len() == BRAIN_GENES,
    {
        proof {
            use_type_invariant(self);
            lemma_brain_genes();
            lemma_brain_weight_count(CELLS);
            law_encode_then_decode(self.brain@, brain_topology(CELLS));
        }
        self.brain.as_chromosome()
    }

    /// What the brain asks for on what the eyes see. `vision` holds one
    /// value for each cell of the eyes, and `activate` gives the output of a
    /// single neuron. The first output of the brain's network asks for a
    /// change of speed and the second for a change of heading, and each is
    /// held within the most that a step changes.
    pub fn think<F: Fn(&Neuron, &Vec<Scalar>) -> Scalar>(&self, vision: Vec<Scalar>, activate: &F) -> (response:
        Response)
        requires
            vision@.len() == CELLS,
            forall|neuron: Neuron, values: Vec<Scalar>|
                neuron@.weights.len() == values@.len() ==> #[trigger] call_requires(
                    *activate,
                    (&neuron, &values),
                ),
        ensures
            answers(*activate, self@.genes, vision@, response),
    {
        proof {
            use_type_invariant(self);
            lemma_brain_genes();
            lemma_brain_weight_count(CELLS);
            lemma_topology_is_chained(self.brain@, brain_topology(CELLS));
        }
        proof {
            law_encode_then_decode(self.brain@, brain_topology(CELLS));
        }
        let outputs = self.brain.network().propagate(vision, activate);
        let speed_accel = Scalar::from_bits(SPEED_ACCEL_BITS);
        let rotation_accel = Scalar::from_bits(ROTATION_ACCEL_BITS);
        let response = Response {
            speed: outputs[0].clamp(speed_accel.negate(), speed_accel),
            rotation: outputs[1].clamp(rotation_accel.negate(), rotation_accel),
        };
        assert(network_yields(*activate, brain_of(self@.genes), vision@, outputs@) && asks_for(
            outputs@,
            response,
        ));
        response
    }

    /// The animal answers what it sees of the food: its eyes look at the
    /// food, its brain is asked what to do, and the animal steers as its
    /// brain says.
    pub fn process_brain<S, U, A, T>(
        &mut self,
        foods: &[Food],
        sight: &S,
        sum: &U,
        activate: &A,
        turn: &T,
    ) where
        S: Fn(&Eyes, Position, Scalar, Position) -> Option<Sighting>,
        U: Fn(Scalar, Scalar) -> Scalar,
        A: Fn(&Neuron, &Vec<Scalar>) -> Scalar,
        T: Fn(Scalar, Scalar) -> Scalar,

        requires
            forall|eyes: Eyes, place: Position, heading: Scalar, food: Position| #[trigger]
                call_requires(*sight, (&eyes, place, heading, food)),
            forall|a: Scalar, b: Scalar| #[trigger] call_requires(*sum, (a, b)),
            forall|neuron: Neuron, values: Vec<Scalar>|
                neuron@.weights.len() == values@.len() ==> #[trigger] call_requires(
                    *activate,
                    (&neuron, &values),
                ),
            forall|a: Scalar, b: Scalar| #[trigger] call_requires(*turn, (a, b)),
        ensures
            responds(*sight, *sum, *activate, *turn, places(foods@), old(self)@, final(self)@),
    {
        proof {
            use_type_invariant(&*self);
        }
        let vision = self.eyes.process_vision(self.position, self.rotation, foods, sight, sum);
        let ghost seen = vision@;
        let response = self.think(vision, activate);
        let speed = sum(self.speed, response.speed);
        let rotation = turn(self.rotation, response.rotation);
        self.steer(rotation, speed);
        assert(responds_by(
            *sight,
            *sum,
            *activate,
            *turn,
            places(foods@),
            old(self)@,
            self@,
            seen,
            response,
            speed,
        ));
    }

    /// The animal goes one step on its way: it is put where `advance` says
    /// that its body gets.
    pub fn process_movement<V: Fn(Body) -> Position>(&mut self, advance: &V)
        requires
            forall|body: Body| #[trigger] call_requires(*advance, (body,)),
        ensures
            moves(*advance, old(self)@, final(self)@),
    {
        let body = Body { position: self.position, rotation: self.rotation, speed: self.speed };
        let position = advance(body);
        self.move_to(position);
    }

    /// Puts the animal elsewhere.
    pub fn move_to(&mut self, position: Position)
        ensures
            final(self)@ == (AnimalModel { position, ..old(self)@ }),
    {
        proof {
            use_type_invariant(&*self);
        }
        self.position = position;
    }

    /// Gives the animal a new heading and a new speed: `speed` held between
    /// the lowest speed and the highest.
    pub fn steer(&mut self, rotation: Scalar, speed: Scalar)
        ensures
            final(self)@ == (AnimalModel { rotation, speed: bounded_speed(speed), ..old(self)@ }),
    {
        proof {
            use_type_invariant(&*self);
        }
        let speed = Animal::bound_speed(speed);
        self.rotation = rotation;
        self.speed = speed;
    }

    /// Counts one more meal, up to the largest count that the machine's word
    /// holds.
    pub fn feed(&mut self)
        ensures
            final(self)@ == fed(old(self)@),
    {
        proof {
            use_type_invariant(&*self);
        }
        if self.satiation < usize::MAX {
            self.satiation = self.satiation + 1;
        }
    }
}

} // verus!
