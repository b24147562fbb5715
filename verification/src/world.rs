//! The world: its animals and its food.

pub mod animal;
pub mod food;
pub mod individual;

use vstd::prelude::*;
use rand_chacha::ChaCha8Rng;
use crate::scalar::Scalar;
use crate::neural_network::neuron::Neuron;
use crate::physics::Physics;
use crate::world::animal::eyes::{places, Eyes, Sighting};
use crate::world::animal::{drawn_animal, fed, moves, responds, Animal, AnimalModel};
use crate::world::food::{Food, FoodModel};

verus! {

/// The number of animals of a world that the simulation starts with.
pub const ANIMALS: usize = 40;

/// The number of items of food of a world that the simulation starts with.
pub const FOODS: usize = 60;

/// How near an animal must be to an item of food to eat it: a hundredth of
/// the world's width.
pub const EATING_RADIUS_BITS: u32 = 0x3C23_D70A;

/// A point of the world.
#[derive(Clone, Copy, Debug)]
pub struct Position {
    pub x: Scalar,
    pub y: Scalar,
}

/// Where an animal stands, where it is headed, and how fast it goes.
#[derive(Clone, Copy, Debug)]
pub struct Body {
    pub position: Position,
    pub rotation: Scalar,
    pub speed: Scalar,
}

/// What a world is: its animals and its food, each in order.
pub struct WorldModel {
    pub animals: Seq<AnimalModel>,
    pub foods: Seq<FoodModel>,
}

/// What each of `animals` is, in order.
pub open spec fn animal_models(animals: Seq<Animal>) -> Seq<AnimalModel> {
    Seq::new(animals.len(), |i: int| animals[i]@)
}

/// What each of `foods` is, in order.
pub open spec fn food_models(foods: Seq<Food>) -> Seq<FoodModel> {
    Seq::new(foods.len(), |i: int| foods[i]@)
}

/// Whether `place` is a place that `draw_place` may draw from the random
/// source.
pub open spec fn drawn_place<P: Fn(&mut ChaCha8Rng) -> Position>(
    draw_place: P,
    place: Position,
) -> bool {
    exists|source: &mut ChaCha8Rng| #[trigger] call_ensures(draw_place, (source,), place)
}

/// Whether `food` is an item of food that `draw_food` may draw from the
/// random source.
pub open spec fn drawn_food<D: Fn(&mut ChaCha8Rng) -> Food>(draw_food: D, food: FoodModel) -> bool {
    exists|source: &mut ChaCha8Rng, drawn: Food| #[trigger]
        call_ensures(draw_food, (source,), drawn) && drawn@ == food
}

/// Whether `world` is a world that is drawn from the random source:
/// `ANIMALS` animals, each drawn, and `FOODS` items of food, each drawn.
pub open spec fn drawn_world<W, B, D>(
    draw_weight: W,
    draw_body: B,
    draw_food: D,
    world: WorldModel,
) -> bool where
    W: Fn(&mut ChaCha8Rng) -> Scalar,
    B: Fn(&mut ChaCha8Rng) -> Body,
    D: Fn(&mut ChaCha8Rng) -> Food,
 {
    &&& world.animals.len() == ANIMALS
    &&& world.foods.len() == FOODS
    &&& forall|i: int|
        0 <= i < world.animals.len() ==> drawn_animal(
            draw_weight,
            draw_body,
            #[trigger] world.animals[i],
        )
    &&& forall|j: int| 0 <= j < world.foods.len() ==> drawn_food(draw_food, #[trigger] world.foods[j])
}

/// Where each item of food lies, in order.
pub open spec fn food_places(foods: Seq<FoodModel>) -> Seq<Position> {
    Seq::new(foods.len(), |k: int| foods[k].position)
}

/// The world after animal `animal` has eaten item `food`: one more meal is
/// counted for the animal, and the food lies at `place`.
pub open spec fn eaten(world: WorldModel, animal: int, food: int, place: Position) -> WorldModel {
    WorldModel {
        animals: world.animals.update(animal, fed(world.animals[animal])),
        foods: world.foods.update(
            food,
            FoodModel { position: place, color: world.foods[food].color },
        ),
    }
}

/// Whether `after` is the world `before` once animal `animal` has met item
/// `food`: where `distance` puts the two within the eating radius, the animal
/// has eaten the food, which lies at a place that `draw_place` may draw, and
/// otherwise nothing has changed.
pub open spec fn meets<D, P>(
    distance: D,
    draw_place: P,
    animal: int,
    food: int,
    before: WorldModel,
    after: WorldModel,
) -> bool where D: Fn(Position, Position) -> Scalar, P: Fn(&mut ChaCha8Rng) -> Position {
    exists|apart: Scalar| #[trigger]
        call_ensures(
            distance,
            (before.animals[animal].position, before.foods[food].position),
            apart,
        ) && if apart.is_at_most(Scalar { bits: EATING_RADIUS_BITS }) {
            exists|place: Position|
                drawn_place(draw_place, place) && after == #[trigger] eaten(
                    before,
                    animal,
                    food,
                    place,
                )
        } else {
            after == before
        }
}

/// The number of meetings before animal `animal` meets item `food`, where
/// every animal in turn meets each of `foods` items.
pub open spec fn turn(animal: int, food: int, foods: int) -> int {
    animal * foods + food
}

/// Whether `states` are the worlds that `before` passes through as every
/// animal in turn meets every item of food, item after item, `after` being
/// the last.
pub open spec fn collides_through<D, P>(
    distance: D,
    draw_place: P,
    before: WorldModel,
    after: WorldModel,
    states: Seq<WorldModel>,
) -> bool where D: Fn(Position, Position) -> Scalar, P: Fn(&mut ChaCha8Rng) -> Position {
    let foods = before.foods.len() as int;
    &&& states.len() == before.animals.len() * foods + 1
    &&& states[0] == before
    &&& states.last() == after
    &&& forall|animal: int, food: int|
        0 <= animal < before.animals.len() && 0 <= food < foods ==> meets(
            distance,
            draw_place,
            animal,
            food,
            #[trigger] states[turn(animal, food, foods)],
            states[turn(animal, food, foods) + 1],
        )
}

/// Whether `after` is the world `before` once every animal has eaten what
/// lay within its reach.
pub open spec fn collided<D, P>(
    distance: D,
    draw_place: P,
    before: WorldModel,
    after: WorldModel,
) -> bool where D: Fn(Position, Position) -> Scalar, P: Fn(&mut ChaCha8Rng) -> Position {
    exists|states: Seq<WorldModel>| collides_through(distance, draw_place, before, after, states)
}

/// Whether `after` is the world `before` once every animal has answered what
/// it saw of the food.
pub open spec fn thought<S, U, A, T>(
    sight: S,
    sum: U,
    activate: A,
    turn: T,
    before: WorldModel,
    after: WorldModel,
) -> bool where
    S: Fn(&Eyes, Position, Scalar, Position) -> Option<Sighting>,
    U: Fn(Scalar, Scalar) -> Scalar,
    A: Fn(&Neuron, &Vec<Scalar>) -> Scalar,
    T: Fn(Scalar, Scalar) -> Scalar,
 {
    &&& after.foods == before.foods
    &&& after.animals.len() == before.animals.len()
    &&& forall|i: int|
        0 <= i < after.animals.len() ==> responds(
            sight,
            sum,
            activate,
            turn,
            food_places(before.foods),
            before.animals[i],
            #[trigger] after.animals[i],
        )
}

/// Whether `after` is the world `before` once every animal has gone one step
/// on its way.
pub open spec fn moved<V: Fn(Body) -> Position>(
    advance: V,
    before: WorldModel,
    after: WorldModel,
) -> bool {
    &&& after.foods == before.foods
    &&& after.animals.len() == before.animals.len()
    &&& forall|i: int|
        0 <= i < after.animals.len() ==> moves(advance, before.animals[i], #[trigger] after.animals[i])
}

/// An earlier meeting has a smaller number than a later one.
proof fn lemma_turn_order(animal: int, food: int, later_animal: int, later_food: int, foods: int)
    requires
        0 <= animal <= later_animal,
        0 <= food < foods,
        0 <= later_food < foods,
        animal < later_animal || food <= later_food,
    ensures
        0 <= turn(animal, food, foods) <= turn(later_animal, later_food, foods),
        animal < later_animal || food < later_food ==> turn(animal, food, foods) < turn(
            later_animal,
            later_food,
            foods,
        ),
        animal == later_animal && food == later_food ==> turn(animal, food, foods) == turn(
            later_animal,
            later_food,
            foods,
        ),
{
    assert(animal < later_animal ==> animal * foods + foods <= later_animal * foods)
        by (nonlinear_arith)
        requires
            0 <= animal,
            0 <= foods,
    ;
    assert(0 <= animal * foods) by (nonlinear_arith)
        requires
            0 <= animal,
            0 <= foods,
    ;
}

/// Whether `after` is the world `before` once the animals have lived through
/// a step: first every animal has eaten what lay within its reach, then every
/// animal has answered what it saw of the food, and then every animal has
/// gone one step on its way.
pub open spec fn lived_by<D, S, U, A, T, V, B, P>(
    physics: Physics<D, S, U, A, T, V, B, P>,
    before: WorldModel,
    sated: WorldModel,
    steered: WorldModel,
    after: WorldModel,
) -> bool where
    D: Fn(Position, Position) -> Scalar,
    S: Fn(&Eyes, Position, Scalar, Position) -> Option<Sighting>,
    U: Fn(Scalar, Scalar) -> Scalar,
    A: Fn(&Neuron, &Vec<Scalar>) -> Scalar,
    T: Fn(Scalar, Scalar) -> Scalar,
    V: Fn(Body) -> Position,
    B: Fn(&mut ChaCha8Rng) -> Body,
    P: Fn(&mut ChaCha8Rng) -> Position,
 {
    &&& collided(physics.distance, physics.draw_place, before, sated)
    &&& thought(physics.sight, physics.sum, physics.activate, physics.turn, sated, steered)
    &&& moved(physics.advance, steered, after)
}

/// Whether `after` is the world `before` once the animals have lived through
/// a step.
pub open spec fn lived<D, S, U, A, T, V, B, P>(
    physics: Physics<D, S, U, A, T, V, B, P>,
    before: WorldModel,
    after: WorldModel,
) -> bool where
    D: Fn(Position, Position) -> Scalar,
    S: Fn(&Eyes, Position, Scalar, Position) -> Option<Sighting>,
    U: Fn(Scalar, Scalar) -> Scalar,
    A: Fn(&Neuron, &Vec<Scalar>) -> Scalar,
    T: Fn(Scalar, Scalar) -> Scalar,
    V: Fn(Body) -> Position,
    B: Fn(&mut ChaCha8Rng) -> Body,
    P: Fn(&mut ChaCha8Rng) -> Position,
 {
    exists|sated: WorldModel, steered: WorldModel|
        lived_by(physics, before, sated, steered, after)
}

/// The world has as many animals and as many items of food before animal
/// `animal` meets item `food` as it had before any meeting.
proof fn lemma_meetings_keep_the_numbers<D, P>(
    distance: D,
    draw_place: P,
    before: WorldModel,
    after: WorldModel,
    states: Seq<WorldModel>,
    animal: int,
    food: int,
) where D: Fn(Position, Position) -> Scalar, P: Fn(&mut ChaCha8Rng) -> Position
    requires
        collides_through(distance, draw_place, before, after, states),
        0 <= animal < before.animals.len(),
        0 <= food <= before.foods.len(),
    ensures
        0 <= turn(animal, food, before.foods.len() as int) < states.len(),
        states[turn(animal, food, before.foods.len() as int)].animals.len()
            == before.animals.len(),
        states[turn(animal, food, before.foods.len() as int)].foods.len() == before.foods.len(),
    decreases animal, food,
{
    let foods = before.foods.len() as int;
    assert(0 <= animal * foods && animal * foods + foods <= before.animals.len() * foods)
        by (nonlinear_arith)
        requires
            0 <= animal < before.animals.len(),
            0 <= foods,
    ;
    if food == 0 {
        if animal > 0 {
            lemma_meetings_keep_the_numbers(
                distance,
                draw_place,
                before,
                after,
                states,
                animal - 1,
                foods,
            );
            assert((animal - 1) * foods + foods == animal * foods) by (nonlinear_arith);
        }
    } else {
        lemma_meetings_keep_the_numbers(
            distance,
            draw_place,
            before,
            after,
            states,
            animal,
            food - 1,
        );
        let earlier = turn(animal, food - 1, foods);
        assert(meets(distance, draw_place, animal, food - 1, states[earlier], states[earlier + 1]));
    }
}

/// A world has as many animals and as many items of food after its animals
/// have lived through a step as it had before.
pub proof fn law_living_keeps_the_numbers<D, S, U, A, T, V, B, P>(
    physics: Physics<D, S, U, A, T, V, B, P>,
    before: WorldModel,
    after: WorldModel,
) where
    D: Fn(Position, Position) -> Scalar,
    S: Fn(&Eyes, Position, Scalar, Position) -> Option<Sighting>,
    U: Fn(Scalar, Scalar) -> Scalar,
    A: Fn(&Neuron, &Vec<Scalar>) -> Scalar,
    T: Fn(Scalar, Scalar) -> Scalar,
    V: Fn(Body) -> Position,
    B: Fn(&mut ChaCha8Rng) -> Body,
    P: Fn(&mut ChaCha8Rng) -> Position,

    requires
        lived(physics, before, after),
    ensures
        after.animals.len() == before.animals.len(),
        after.foods.len() == before.foods.len(),
{
    let (sated, steered) = choose|sated: WorldModel, steered: WorldModel|
        lived_by(physics, before, sated, steered, after);
    let states = choose|states: Seq<WorldModel>|
        collides_through(physics.distance, physics.draw_place, before, sated, states);
    let animals = before.animals.len() as int;
    let foods = before.foods.len() as int;
    if animals > 0 {
        lemma_meetings_keep_the_numbers(
            physics.distance,
            physics.draw_place,
            before,
            sated,
            states,
            animals - 1,
            foods,
        );
        assert((animals - 1) * foods + foods == animals * foods) by (nonlinear_arith);
    } else {
        assert(animals * foods == 0) by (nonlinear_arith)
            requires
                animals == 0,
        ;
    }
}

/// Whether `after` holds the items of food of `before`, in order, each with
/// its colour, and each at a place that `draw_place` may draw from the
/// random source.
pub open spec fn scattered<P: Fn(&mut ChaCha8Rng) -> Position>(
    draw_place: P,
    before: Seq<FoodModel>,
    after: Seq<FoodModel>,
) -> bool {
    &&& after.len() == before.len()
    &&& forall|j: int|
        0 <= j < after.len() ==> (#[trigger] after[j]).color == before[j].color && drawn_place(
            draw_place,
            after[j].position,
        )
}

/// What is to be seen of an animal: where it is, where it is headed, and how
/// fast it goes.
#[derive(Clone, Copy, Debug)]
pub struct AnimalSnapshot {
    pub position: Position,
    pub rotation: Scalar,
    pub speed: Scalar,
}

/// What is to be seen of an item of food: where it lies, and its colour.
#[derive(Debug)]
pub struct FoodSnapshot {
    pub position: Position,
    pub color: String,
}

/// What is to be seen of a world: its animals and its food, each in order.
#[derive(Debug)]
pub struct WorldSnapshot {
    pub animals: Vec<AnimalSnapshot>,
    pub foods: Vec<FoodSnapshot>,
}

/// Whether `snapshot` shows the world as it is.
pub open spec fn shows(snapshot: WorldSnapshot, world: WorldModel) -> bool {
    &&& snapshot.animals@.len() == world.animals.len()
    &&& forall|i: int|
        0 <= i < world.animals.len() ==> (#[trigger] snapshot.animals@[i]) == (AnimalSnapshot {
            position: world.animals[i].position,
            rotation: world.animals[i].rotation,
            speed: world.animals[i].speed,
        })
    &&& snapshot.foods@.len() == world.foods.len()
    &&& forall|j: int|
        0 <= j < world.foods.len() ==> (#[trigger] snapshot.foods@[j]).position
            == world.foods[j].position && snapshot.foods@[j].color@ == world.foods[j].color
}

/// A world. The numbers of its animals and of its items of food never
/// change.
pub struct World {
    pub(crate) animals: Vec<Animal>,
    pub(crate) foods: Vec<Food>,
}

impl View for World {
    type V = WorldModel;

    closed spec fn view(&self) -> WorldModel {
        WorldModel { animals: animal_models(self.animals@), foods: food_models(self.foods@) }
    }
}

impl World {
    pub fn new(animals: Vec<Animal>, foods: Vec<Food>) -> (r: Self)
        ensures
            r@.animals == animal_models(animals@),
            r@.foods == food_models(foods@),
    {
        World { animals, foods }
    }

    /// A world of `ANIMALS` hungry animals and `FOODS` items of food. Each
    /// animal is drawn in turn from the random source, and then each item of
    /// food: `draw_weight` draws a gene of a brain, `draw_body` the body of
    /// an animal, and `draw_food` an item of food.
    pub fn random<W, B, D>(rng: &mut ChaCha8Rng, draw_weight: &W, draw_body: &B, draw_food: &D) -> (r:
        Self) where
        W: Fn(&mut ChaCha8Rng) -> Scalar,
        B: Fn(&mut ChaCha8Rng) -> Body,
        D: Fn(&mut ChaCha8Rng) -> Food,

        requires
            forall|source: &mut ChaCha8Rng| #[trigger] call_requires(*draw_weight, (source,)),
            forall|source: &mut ChaCha8Rng| #[trigger] call_requires(*draw_body, (source,)),
            forall|source: &mut ChaCha8Rng| #[trigger] call_requires(*draw_food, (source,)),
        ensures
            drawn_world(*draw_weight, *draw_body, *draw_food, r@),
    {
        let mut animals: Vec<Animal> = Vec::new();
        let mut i: usize = 0;
        while i < ANIMALS
            invariant
                i <= ANIMALS,
                animals@.len() == i,
                forall|k: int|
                    0 <= k < i ==> drawn_animal(*draw_weight, *draw_body, (#[trigger] animals@[k])@),
                forall|source: &mut ChaCha8Rng| #[trigger] call_requires(*draw_weight, (source,)),
                forall|source: &mut ChaCha8Rng| #[trigger] call_requires(*draw_body, (source,)),
            decreases ANIMALS - i,
        {
            let animal = Animal::random(rng, draw_weight, draw_body);
            animals.push(animal);
            i += 1;
        }
        let mut foods: Vec<Food> = Vec::new();
        let mut j: usize = 0;
        while j < FOODS
            invariant
                j <= FOODS,
                foods@.len() == j,
                forall|k: int| 0 <= k < j ==> drawn_food(*draw_food, (#[trigger] foods@[k])@),
                forall|source: &mut ChaCha8Rng| #[trigger] call_requires(*draw_food, (source,)),
            decreases FOODS - j,
        {
            let food = draw_food(rng);
            assert(drawn_food(*draw_food, food@));
            foods.push(food);
            j += 1;
        }
        World { animals, foods }
    }

    /// What is to be seen of the world as it is now.
    pub fn snapshot(&self) -> (r: WorldSnapshot)
        ensures
            shows(r, self@),
    {
        let mut animals: Vec<AnimalSnapshot> = Vec::new();
        let mut i: usize = 0;
        while i < self.animals.len()
            invariant
                i <= self.animals@.len(),
                animals@.len() == i,
                forall|k: int|
                    0 <= k < i ==> (#[trigger] animals@[k]) == (AnimalSnapshot {
                        position: self@.animals[k].position,
                        rotation: self@.animals[k].rotation,
                        speed: self@.animals[k].speed,
                    }),
            decreases self.animals@.len() - i,
        {
            let animal = &self.animals[i];
            animals.push(
                AnimalSnapshot {
                    position: animal.position(),
                    rotation: animal.rotation(),
                    speed: animal.speed(),
                },
            );
            i += 1;
        }
        let mut foods: Vec<FoodSnapshot> = Vec::new();
        let mut j: usize = 0;
        while j < self.foods.len()
            invariant
                j <= self.foods@.len(),
                foods@.len() == j,
                forall|k: int|
                    0 <= k < j ==> (#[trigger] foods@[k]).position == self@.foods[k].position
                        && foods@[k].color@ == self@.foods[k].color,
            decreases self.foods@.len() - j,
        {
            let food = &self.foods[j];
            foods.push(FoodSnapshot { position: food.position(), color: food.color().to_owned() });
            j += 1;
        }
        WorldSnapshot { animals, foods }
    }

    pub fn animals(&self) -> (r: &[Animal])
        ensures
            animal_models(r@) == self@.animals,
    {
        self.animals.as_slice()
    }

    pub fn food(&self) -> (r: &[Food])
        ensures
            food_models(r@) == self@.foods,
    {
        self.foods.as_slice()
    }

    /// Replaces the animals by as many others.
    pub(crate) fn repopulate(&mut self, animals: Vec<Animal>)
        requires
            animals@.len() == old(self)@.animals.len(),
        ensures
            final(self)@.foods == old(self)@.foods,
            final(self)@.animals == animal_models(animals@),
    {
        self.animals = animals;
    }

    /// Lays every item of food down at a place that `draw_place` draws from
    /// the random source, item after item.
    pub(crate) fn scatter_food<P: Fn(&mut ChaCha8Rng) -> Position>(
        &mut self,
        rng: &mut ChaCha8Rng,
        draw_place: &P,
    )
        requires
            forall|source: &mut ChaCha8Rng| #[trigger] call_requires(*draw_place, (source,)),
        ensures
            final(self)@.animals == old(self)@.animals,
            scattered(*draw_place, old(self)@.foods, final(self)@.foods),
    {
        let mut j: usize = 0;
        while j < self.foods.len()
            invariant
                j <= self.foods@.len(),
                self@.animals == old(self)@.animals,
                self@.foods.len() == old(self)@.foods.len(),
                forall|k: int|
                    0 <= k < self@.foods.len() ==> (#[trigger] self@.foods[k]).color == old(
                        self,
                    )@.foods[k].color,
                forall|k: int|
                    0 <= k < j ==> drawn_place(*draw_place, (#[trigger] self@.foods[k]).position),
                forall|source: &mut ChaCha8Rng| #[trigger] call_requires(*draw_place, (source,)),
            decreases self.foods@.len() - j,
        {
            let place = draw_place(rng);
            assert(drawn_place(*draw_place, place));
            let ghost before = self@.foods;
            self.foods[j].move_to(place);
            assert(self@.foods =~= before.update(
                j as int,
                FoodModel { position: place, color: before[j as int].color },
            ));
            j += 1;
        }
    }

    /// Whether an animal at the given distance from an item of food eats it:
    /// the distance is no more than the eating radius.
    pub fn within_reach(distance: Scalar) -> (r: bool)
        ensures
            r == distance.is_at_most(Scalar { bits: EATING_RADIUS_BITS }),
    {
        distance.le(Scalar::from_bits(EATING_RADIUS_BITS))
    }

    /// Animal `animal` eats item `food`: one more meal is counted for the
    /// animal, and the food is laid down at `position`.
    pub fn eat(&mut self, animal: usize, food: usize, position: Position)
        requires
            animal < old(self)@.animals.len(),
            food < old(self)@.foods.len(),
        ensures
            final(self)@ == eaten(old(self)@, animal as int, food as int, position),
    {
        self.animals[animal].feed();
        self.foods[food].move_to(position);
        assert(final(self)@.animals =~= eaten(
            old(self)@,
            animal as int,
            food as int,
            position,
        ).animals);
        assert(final(self)@.foods =~= eaten(old(self)@, animal as int, food as int, position).foods);
    }

    /// The animals live through a step: every animal eats what lies within
    /// its reach, then every animal answers what it sees of the food, and
    /// then every animal goes one step on its way.
    pub fn live<D, S, U, A, T, V, B, P>(
        &mut self,
        rng: &mut ChaCha8Rng,
        physics: &Physics<D, S, U, A, T, V, B, P>,
    ) where
        D: Fn(Position, Position) -> Scalar,
        S: Fn(&Eyes, Position, Scalar, Position) -> Option<Sighting>,
        U: Fn(Scalar, Scalar) -> Scalar,
        A: Fn(&Neuron, &Vec<Scalar>) -> Scalar,
        T: Fn(Scalar, Scalar) -> Scalar,
        V: Fn(Body) -> Position,
        B: Fn(&mut ChaCha8Rng) -> Body,
        P: Fn(&mut ChaCha8Rng) -> Position,

        requires
            physics.ready(),
        ensures
            lived(*physics, old(self)@, final(self)@),
    {
        self.process_collisions(rng, &physics.distance, &physics.draw_place);
        let ghost sated = self@;
        self.process_brains(&physics.sight, &physics.sum, &physics.activate, &physics.turn);
        let ghost steered = self@;
        self.process_movements(&physics.advance);
        assert(lived_by(*physics, old(self)@, sated, steered, self@));
    }

    /// Every animal in turn eats every item of food within its reach, item
    /// after item: `distance` says how far the two lie apart, and what is
    /// eaten is laid down where `draw_place` draws from the random source.
    pub fn process_collisions<D, P>(&mut self, rng: &mut ChaCha8Rng, distance: &D, draw_place: &P) where
        D: Fn(Position, Position) -> Scalar,
        P: Fn(&mut ChaCha8Rng) -> Position,

        requires
            forall|a: Position, b: Position| #[trigger] call_requires(*distance, (a, b)),
            forall|source: &mut ChaCha8Rng| #[trigger] call_requires(*draw_place, (source,)),
        ensures
            collided(*distance, *draw_place, old(self)@, final(self)@),
    {
        let animals = self.animals.len();
        let foods = self.foods.len();
        let ghost mut states: Seq<WorldModel> = seq![self@];
        let mut i: usize = 0;
        while i < animals
            invariant
                i <= animals,
                animals == old(self)@.animals.len(),
                foods == old(self)@.foods.len(),
                self@.animals.len() == animals,
                self@.foods.len() == foods,
                states.len() == i * foods + 1,
                states[0] == old(self)@,
                states.last() == self@,
                forall|a: int, f: int|
                    0 <= a < i && 0 <= f < foods ==> meets(
                        *distance,
                        *draw_place,
                        a,
                        f,
                        #[trigger] states[turn(a, f, foods as int)],
                        states[turn(a, f, foods as int) + 1],
                    ),
                forall|a: Position, b: Position| #[trigger] call_requires(*distance, (a, b)),
                forall|source: &mut ChaCha8Rng| #[trigger] call_requires(*draw_place, (source,)),
            decreases animals - i,
        {
            let mut j: usize = 0;
            while j < foods
                invariant
                    i < animals,
                    j <= foods,
                    animals == old(self)@.animals.len(),
                    foods == old(self)@.foods.len(),
                    self@.animals.len() == animals,
                    self@.foods.len() == foods,
                    states.len() == i * foods + j + 1,
                    states[0] == old(self)@,
                    states.last() == self@,
                    forall|a: int, f: int|
                        0 <= a <= i && 0 <= f < foods && (a < i || f < j) ==> meets(
                            *distance,
                            *draw_place,
                            a,
                            f,
                            #[trigger] states[turn(a, f, foods as int)],
                            states[turn(a, f, foods as int) + 1],
                        ),
                    forall|a: Position, b: Position| #[trigger] call_requires(*distance, (a, b)),
                    forall|source: &mut ChaCha8Rng| #[trigger] call_requires(*draw_place, (source,)),
                decreases foods - j,
            {
                let ghost before = self@;
                let apart = distance(self.animals[i].position(), self.foods[j].position());
                if World::within_reach(apart) {
                    let place = draw_place(rng);
                    assert(drawn_place(*draw_place, place));
                    self.eat(i, j, place);
                }
                proof {
                    assert(meets(*distance, *draw_place, i as int, j as int, before, self@)) by {
                        assert(call_ensures(
                            *distance,
                            (before.animals[i as int].position, before.foods[j as int].position),
                            apart,
                        ));
                    }
                    let further = states.push(self@);
                    assert forall|a: int, f: int|
                        0 <= a <= i && 0 <= f < foods && (a < i || f < j + 1) implies meets(
                        *distance,
                        *draw_place,
                        a,
                        f,
                        #[trigger] further[turn(a, f, foods as int)],
                        further[turn(a, f, foods as int) + 1],
                    ) by {
                        lemma_turn_order(a, f, i as int, j as int, foods as int);
                        if a < i || f < j {
                            assert(further[turn(a, f, foods as int)] == states[turn(
                                a,
                                f,
                                foods as int,
                            )]);
                        }
                    }
                    states = further;
                }
                j += 1;
            }
            proof {
                assert((i + 1) * foods == i * foods + foods) by (nonlinear_arith);
            }
            i += 1;
        }
        assert(collides_through(*distance, *draw_place, old(self)@, self@, states));
    }

    /// Every animal in turn answers what it sees of the food.
    pub fn process_brains<S, U, A, T>(&mut self, sight: &S, sum: &U, activate: &A, turn: &T) where
        S: Fn(&Eyes, Position, Scalar, Position) -> Option<Sighting>,
        U: Fn(Scalar, Scalar) -> Scalar,
        A: Fn(&Neuron, &Vec<Scalar>) -> Scalar,
        T: Fn(Scalar, Scalar) -> Scalar,

        requires
            forall|eyes: Eyes, place: Position, heading: Scalar, food: Position| #[trigger]
                call_requires(*sight, (&eyes, place, heading, food)),
            forall|a: Scalar, b: Scalar| #[trigger] call_requires(*sum, (a, b)),
            forall|neuron: Neuron, values: Vec<Scalar>|
                neuron@.weights.len() == values@.len() ==> #[trigger] call_requires(
                    *activate,
                    (&neuron, &values),
                ),
            forall|a: Scalar, b: Scalar| #[trigger] call_requires(*turn, (a, b)),
        ensures
            thought(*sight, *sum, *activate, *turn, old(self)@, final(self)@),
    {
        let ghost seen = food_places(self@.foods);
        assert(places(self.foods@) =~= seen);
        let mut i: usize = 0;
        while i < self.animals.len()
            invariant
                i <= self.animals@.len(),
                self@.foods == old(self)@.foods,
                self.foods@ == old(self).foods@,
                places(self.foods@) == seen,
                seen == food_places(old(self)@.foods),
                self@.animals.len() == old(self)@.animals.len(),
                forall|k: int|
                    0 <= k < i ==> responds(
                        *sight,
                        *sum,
                        *activate,
                        *turn,
                        seen,
                        old(self)@.animals[k],
                        #[trigger] self@.animals[k],
                    ),
                forall|k: int|
                    i <= k < self@.animals.len() ==> #[trigger] self@.animals[k] == old(
                        self,
                    )@.animals[k],
                forall|eyes: Eyes, place: Position, heading: Scalar, food: Position| #[trigger]
                    call_requires(*sight, (&eyes, place, heading, food)),
                forall|a: Scalar, b: Scalar| #[trigger] call_requires(*sum, (a, b)),
                forall|neuron: Neuron, values: Vec<Scalar>|
                    neuron@.weights.len() == values@.len() ==> #[trigger] call_requires(
                        *activate,
                        (&neuron, &values),
                    ),
                forall|a: Scalar, b: Scalar| #[trigger] call_requires(*turn, (a, b)),
            decreases self.animals@.len() - i,
        {
            let ghost before = self@.animals;
            self.animals[i].process_brain(self.foods.as_slice(), sight, sum, activate, turn);
            proof {
                let after = self@.animals;
                assert(after =~= before.update(i as int, after[i as int]));
                assert(responds(
                    *sight,
                    *sum,
                    *activate,
                    *turn,
                    seen,
                    before[i as int],
                    after[i as int],
                ));
                assert forall|k: int| 0 <= k < i + 1 implies responds(
                    *sight,
                    *sum,
                    *activate,
                    *turn,
                    seen,
                    old(self)@.animals[k],
                    #[trigger] after[k],
                ) by {
                    if k < i {
                        assert(after[k] == before[k]);
                    }
                }
            }
            i += 1;
        }
    }

    /// Every animal in turn goes one step on its way.
    pub fn process_movements<V: Fn(Body) -> Position>(&mut self, advance: &V)
        requires
            forall|body: Body| #[trigger] call_requires(*advance, (body,)),
        ensures
            moved(*advance, old(self)@, final(self)@),
    {
        let mut i: usize = 0;
        while i < self.animals.len()
            invariant
                i <= self.animals@.len(),
                self@.foods == old(self)@.foods,
                self@.animals.len() == old(self)@.animals.len(),
                forall|k: int|
                    0 <= k < i ==> moves(*advance, old(self)@.animals[k], #[trigger] self@.animals[k]),
                forall|k: int|
                    i <= k < self@.animals.len() ==> #[trigger] self@.animals[k] == old(
                        self,
                    )@.animals[k],
                forall|body: Body| #[trigger] call_requires(*advance, (body,)),
            decreases self.animals@.len() - i,
        {
            let ghost before = self@.animals;
            self.animals[i].process_movement(advance);
            proof {
                let after = self@.animals;
                assert(after =~= before.update(i as int, after[i as int]));
                assert(moves(*advance, before[i as int], after[i as int]));
                assert forall|k: int| 0 <= k < i + 1 implies moves(
                    *advance,
                    old(self)@.animals[k],
                    #[trigger] after[k],
                ) by {
                    if k < i {
                        assert(after[k] == before[k]);
                    }
                }
            }
            i += 1;
        }
    }
}

} // verus!
