//! The simulation: a world, its age within the current generation, and the
//! genetic algorithm that makes the next generation.

use vstd::prelude::*;
use rand_chacha::ChaCha8Rng;
use crate::crossover::uniform::UniformCrossover;
use crate::genetic_algorithm::{law_children_keep_length, GeneticAlgorithm};
use crate::individual::Individual;
use crate::mutation::MutationMethod;
use crate::select::roulette_wheel::RouletteWheelSelection;
use crate::world::animal::brain::BRAIN_GENES;
use crate::neural_network::neuron::Neuron;
use crate::physics::Physics;
use crate::scalar::Scalar;
use crate::world::animal::eyes::{Eyes, Sighting};
use crate::world::animal::{drawn_body, has_drawn_body, Animal, AnimalModel};
use crate::world::food::Food;
use crate::world::individual::{fitness_of, AnimalIndividual};
use crate::world::{
    animal_models, drawn_world, law_living_keeps_the_numbers, lived, scattered, Body, Position,
    World, WorldModel,
};

verus! {

/// The number of steps after which the next one brings a new generation.
pub const GENERATION_LENGTH: usize = 2500;

/// The age after one more step.
pub open spec fn next_age(age: nat) -> nat {
    if age >= GENERATION_LENGTH {
        0
    } else {
        age + 1
    }
}

/// The age after `steps` more steps.
pub open spec fn age_after(age: nat, steps: nat) -> nat
    decreases steps,
{
    if steps == 0 {
        age
    } else {
        next_age(age_after(age, (steps - 1) as nat))
    }
}

/// The number of new generations that `steps` steps bring.
pub open spec fn evolutions(age: nat, steps: nat) -> nat
    decreases steps,
{
    if steps == 0 {
        0
    } else {
        let earlier = evolutions(age, (steps - 1) as nat);
        if age_after(age, (steps - 1) as nat) >= GENERATION_LENGTH {
            earlier + 1
        } else {
            earlier
        }
    }
}

/// Whether every individual of `population` stands for the animal at its
/// place: it has the genes of that animal and the fitness that the animal's
/// meals give.
pub open spec fn stand_for(population: Seq<AnimalIndividual>, animals: Seq<AnimalModel>) -> bool {
    &&& population.len() == animals.len()
    &&& forall|i: int|
        0 <= i < population.len() ==> (#[trigger] population[i]).genes() == animals[i].genes
            && population[i].fitness_value() == fitness_of(animals[i].satiation)
}

/// Whether `animal` is a hungry animal whose genes the algorithm may breed
/// from `population` and whose body `draw_body` may draw from the random
/// source.
pub open spec fn born_of<M: MutationMethod, B: Fn(&mut ChaCha8Rng) -> Body>(
    algorithm: GeneticAlgorithm<RouletteWheelSelection, UniformCrossover, M>,
    draw_body: B,
    population: Seq<AnimalIndividual>,
    animal: AnimalModel,
) -> bool {
    &&& animal.satiation == 0
    &&& has_drawn_body(draw_body, animal)
    &&& exists|child: AnimalIndividual| #[trigger]
        algorithm.breeds(population, child) && child.genes() == animal.genes
}

/// Whether `after` is a generation that the algorithm may make of `before`:
/// as many animals, each bred from the individuals that stand for the
/// animals of `before`, and each with a body that `draw_body` may draw.
pub open spec fn next_generation<M: MutationMethod, B: Fn(&mut ChaCha8Rng) -> Body>(
    algorithm: GeneticAlgorithm<RouletteWheelSelection, UniformCrossover, M>,
    draw_body: B,
    before: Seq<AnimalModel>,
    after: Seq<AnimalModel>,
) -> bool {
    exists|population: Seq<AnimalIndividual>| #[trigger]
        stand_for(population, before) && after.len() == before.len() && forall|k: int|
            0 <= k < after.len() ==> born_of(algorithm, draw_body, population, #[trigger] after[k])
}

/// Whether a step leaves the world `after` where the animals have lived
/// through it into the world `before`: where the step brings a new
/// generation, the animals are a generation that the algorithm may make of
/// those before and the food is the same food at places that are drawn, and
/// otherwise nothing changes.
pub open spec fn ends_in<M, B, P>(
    algorithm: GeneticAlgorithm<RouletteWheelSelection, UniformCrossover, M>,
    draw_body: B,
    draw_place: P,
    evolved: bool,
    before: WorldModel,
    after: WorldModel,
) -> bool where
    M: MutationMethod,
    B: Fn(&mut ChaCha8Rng) -> Body,
    P: Fn(&mut ChaCha8Rng) -> Position,
 {
    if evolved {
        &&& next_generation(algorithm, draw_body, before.animals, after.animals)
        &&& scattered(draw_place, before.foods, after.foods)
    } else {
        after == before
    }
}

pub struct Simulation<M> {
    world: World,
    ga: GeneticAlgorithm<RouletteWheelSelection, UniformCrossover, M>,
    age: usize,
}

impl<M: MutationMethod> Simulation<M> {
    pub closed spec fn world_model(&self) -> WorldModel {
        self.world@
    }

    /// The number of steps since the generation began.
    pub closed spec fn age_count(&self) -> nat {
        self.age as nat
    }

    pub closed spec fn algorithm(&self) -> GeneticAlgorithm<
        RouletteWheelSelection,
        UniformCrossover,
        M,
    > {
        self.ga
    }

    /// A simulation of the given world at the beginning of a generation. New
    /// generations are selected by roulette wheel, crossed uniformly and
    /// mutated by `mutation_method`.
    pub fn new(world: World, mutation_method: M) -> (r: Self)
        ensures
            r.world_model() == world@,
            r.age_count() == 0,
            r.algorithm().mutation() == mutation_method,
    {
        Simulation {
            world,
            ga: GeneticAlgorithm::new(
                RouletteWheelSelection::new(),
                UniformCrossover::new(),
                mutation_method,
            ),
            age: 0,
        }
    }

    /// A simulation of a world drawn from the random source, as
    /// `World::random` draws it, at the beginning of a generation.
    pub fn random<W, B, D>(
        rng: &mut ChaCha8Rng,
        mutation_method: M,
        draw_weight: &W,
        draw_body: &B,
        draw_food: &D,
    ) -> (r: Self) where
        W: Fn(&mut ChaCha8Rng) -> Scalar,
        B: Fn(&mut ChaCha8Rng) -> Body,
        D: Fn(&mut ChaCha8Rng) -> Food,

        requires
            forall|source: &mut ChaCha8Rng| #[trigger] call_requires(*draw_weight, (source,)),
            forall|source: &mut ChaCha8Rng| #[trigger] call_requires(*draw_body, (source,)),
            forall|source: &mut ChaCha8Rng| #[trigger] call_requires(*draw_food, (source,)),
        ensures
            r.age_count() == 0,
            r.algorithm().mutation() == mutation_method,
            drawn_world(*draw_weight, *draw_body, *draw_food, r.world_model()),
    {
        let world = World::random(rng, draw_weight, draw_body, draw_food);
        Simulation::new(world, mutation_method)
    }

    pub fn world(&self) -> (r: &World)
        ensures
            r@ == self.world_model(),
    {
        &self.world
    }

    pub fn age(&self) -> (r: usize)
        ensures
            r == self.age_count(),
    {
        self.age
    }

    /// One step of the simulation. First the animals live through the step:
    /// every animal eats what lies within its reach, then every animal
    /// answers what it sees of the food, and then every animal goes one step
    /// on its way. Then, within a generation, the age grows by one. Once
    /// `GENERATION_LENGTH` steps have passed, the step brings the next
    /// generation instead, and the age begins again at zero: every animal is
    /// replaced by a hungry one that is bred from the old generation and
    /// whose body is drawn from the random source, and then every item of
    /// food is laid down at a place that is drawn.
    pub fn step<D, S, U, A, T, V, B, P>(
        &mut self,
        rng: &mut ChaCha8Rng,
        physics: &Physics<D, S, U, A, T, V, B, P>,
    ) -> (evolved: bool) where
        D: Fn(Position, Position) -> Scalar,
        S: Fn(&Eyes, Position, Scalar, Position) -> Option<Sighting>,
        U: Fn(Scalar, Scalar) -> Scalar,
        A: Fn(&Neuron, &Vec<Scalar>) -> Scalar,
        T: Fn(Scalar, Scalar) -> Scalar,
        V: Fn(Body) -> Position,
        B: Fn(&mut ChaCha8Rng) -> Body,
        P: Fn(&mut ChaCha8Rng) -> Position,

        requires
            physics.ready(),
        ensures
            evolved == (old(self).age_count() >= GENERATION_LENGTH),
            final(self).age_count() == next_age(old(self).age_count()),
            final(self).algorithm() == old(self).algorithm(),
            exists|world: WorldModel| #[trigger]
                lived(*physics, old(self).world_model(), world) && ends_in(
                    old(self).algorithm(),
                    physics.draw_body,
                    physics.draw_place,
                    evolved,
                    world,
                    final(self).world_model(),
                ),
    {
        self.world.live(rng, physics);
        let ghost world = self.world@;
        let evolved = if self.age >= GENERATION_LENGTH {
            self.evolve(rng, &physics.draw_body, &physics.draw_place);
            true
        } else {
            self.age = self.age + 1;
            false
        };
        assert(lived(*physics, old(self).world_model(), world) && ends_in(
            old(self).algorithm(),
            physics.draw_body,
            physics.draw_place,
            evolved,
            world,
            self.world_model(),
        ));
        evolved
    }

    /// Begins a new generation. The random source is used in this order: by
    /// the genetic algorithm for all the children, then for the body of each
    /// new animal in turn, then for the place of each item of food in turn.
    fn evolve<B, P>(&mut self, rng: &mut ChaCha8Rng, draw_body: &B, draw_place: &P) where
        B: Fn(&mut ChaCha8Rng) -> Body,
        P: Fn(&mut ChaCha8Rng) -> Position,

        requires
            forall|source: &mut ChaCha8Rng| #[trigger] call_requires(*draw_body, (source,)),
            forall|source: &mut ChaCha8Rng| #[trigger] call_requires(*draw_place, (source,)),
        ensures
            final(self).age_count() == 0,
            final(self).algorithm() == old(self).algorithm(),
            scattered(*draw_place, old(self).world_model().foods, final(self).world_model().foods),
            next_generation(
                old(self).algorithm(),
                *draw_body,
                old(self).world_model().animals,
                final(self).world_model().animals,
            ),
    {
        self.age = 0;
        let ghost before = self.world@.animals;
        let old_animals = self.world.animals();
        let count = old_animals.len();

        let mut population: Vec<AnimalIndividual> = Vec::new();
        let mut i: usize = 0;
        while i < count
            invariant
                i <= count,
                count == old_animals@.len(),
                before == animal_models(old_animals@),
                population@.len() == i,
                forall|j: int|
                    0 <= j < i ==> (#[trigger] population@[j]).genes() == before[j].genes
                        && population@[j].fitness_value() == fitness_of(before[j].satiation)
                        && population@[j].genes().len() == BRAIN_GENES,
            decreases count - i,
        {
            population.push(AnimalIndividual::from_animal(&old_animals[i]));
            i += 1;
        }
        assert(stand_for(population@, before));

        let next = self.ga.evolve(population.as_slice(), rng);

        let mut animals: Vec<Animal> = Vec::new();
        let mut k: usize = 0;
        while k < count
            invariant
                k <= count,
                count == next@.len(),
                animals@.len() == k,
                forall|j: int|
                    0 <= j < population@.len() ==> (#[trigger] population@[j]).genes().len()
                        == BRAIN_GENES,
                forall|j: int|
                    0 <= j < next@.len() ==> self.ga.breeds(population@, #[trigger] next@[j]),
                forall|j: int|
                    0 <= j < k ==> born_of(self.ga, *draw_body, population@, (#[trigger] animals@[j])@),
                forall|source: &mut ChaCha8Rng| #[trigger] call_requires(*draw_body, (source,)),
            decreases count - k,
        {
            let chromosome = next[k].chromosome().clone();
            let body = draw_body(rng);
            assert(drawn_body(*draw_body, body));
            proof {
                law_children_keep_length(self.ga, population@, next@[k as int], BRAIN_GENES as nat);
            }
            match Animal::from_chromosome(chromosome, body.position, body.rotation, body.speed) {
                Ok(animal) => {
                    assert(self.ga.breeds(population@, next@[k as int]) && next@[k as int].genes()
                        == animal@.genes);
                    assert(has_drawn_body(*draw_body, animal@));
                    assert(born_of(self.ga, *draw_body, population@, animal@));
                    animals.push(animal);
                },
                Err(_) => {
                    assert(false);
                },
            }
            k += 1;
        }
        let ghost after = animal_models(animals@);
        assert forall|j: int| 0 <= j < after.len() implies born_of(
            self.ga,
            *draw_body,
            population@,
            #[trigger] after[j],
        ) by {
            assert(born_of(self.ga, *draw_body, population@, animals@[j]@));
        }
        self.world.repopulate(animals);
        self.world.scatter_food(rng, draw_place);
    }
}

/// Within a generation every step adds one to the age and none brings a new
/// generation.
pub proof fn lemma_within_generation(steps: nat)
    requires
        steps <= GENERATION_LENGTH,
    ensures
        age_after(0, steps) == steps,
        evolutions(0, steps) == 0,
    decreases steps,
{
    if steps > 0 {
        lemma_within_generation((steps - 1) as nat);
    }
}

/// From the beginning of a generation, `GENERATION_LENGTH + 1` steps bring
/// exactly one new generation, with the last of them, and leave the age at
/// zero.
pub proof fn law_one_evolution_per_generation()
    ensures
        evolutions(0, GENERATION_LENGTH as nat) == 0,
        evolutions(0, (GENERATION_LENGTH + 1) as nat) == 1,
        age_after(0, (GENERATION_LENGTH + 1) as nat) == 0,
{
    lemma_within_generation(GENERATION_LENGTH as nat);
}

/// A step leaves as many animals and as many items of food as there were.
pub proof fn law_step_keeps_the_numbers<M, D, S, U, A, T, V, B, P>(
    algorithm: GeneticAlgorithm<RouletteWheelSelection, UniformCrossover, M>,
    physics: Physics<D, S, U, A, T, V, B, P>,
    evolved: bool,
    before: WorldModel,
    world: WorldModel,
    after: WorldModel,
) where
    M: MutationMethod,
    D: Fn(Position, Position) -> Scalar,
    S: Fn(&Eyes, Position, Scalar, Position) -> Option<Sighting>,
    U: Fn(Scalar, Scalar) -> Scalar,
    A: Fn(&Neuron, &Vec<Scalar>) -> Scalar,
    T: Fn(Scalar, Scalar) -> Scalar,
    V: Fn(Body) -> Position,
    B: Fn(&mut ChaCha8Rng) -> Body,
    P: Fn(&mut ChaCha8Rng) -> Position,

    requires
        lived(physics, before, world),
        ends_in(algorithm, physics.draw_body, physics.draw_place, evolved, world, after),
    ensures
        after.animals.len() == before.animals.len(),
        after.foods.len() == before.foods.len(),
{
    law_living_keeps_the_numbers(physics, before, world);
    if evolved {
        law_new_generation_is_hungry(algorithm, physics.draw_body, world.animals, after.animals);
    }
}

/// A new generation has as many animals as the old one, and none of them has
/// eaten.
pub proof fn law_new_generation_is_hungry<M: MutationMethod, B: Fn(&mut ChaCha8Rng) -> Body>(
    algorithm: GeneticAlgorithm<RouletteWheelSelection, UniformCrossover, M>,
    draw_body: B,
    before: Seq<AnimalModel>,
    after: Seq<AnimalModel>,
)
    requires
        next_generation(algorithm, draw_body, before, after),
    ensures
        after.len() == before.len(),
        forall|k: int| 0 <= k < after.len() ==> (#[trigger] after[k]).satiation == 0,
{
    let population = choose|population: Seq<AnimalIndividual>| #[trigger]
        stand_for(population, before) && after.len() == before.len() && forall|k: int|
            0 <= k < after.len() ==> born_of(algorithm, draw_body, population, #[trigger] after[k]);
    assert forall|k: int| 0 <= k < after.len() implies (#[trigger] after[k]).satiation == 0 by {
        assert(born_of(algorithm, draw_body, population, after[k]));
    }
}

} // verus!
