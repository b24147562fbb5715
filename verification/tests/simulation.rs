use evosim::chromosome::Chromosome;
use evosim::crossover::uniform::UniformCrossover;
use evosim::genetic_algorithm::GeneticAlgorithm;
use evosim::individual::Individual;
use evosim::mutation::gaussian::GaussianMutation;
use evosim::mutation::MutationMethod;
use evosim::neural_network::neuron::Neuron;
use evosim::physics::Physics;
use evosim::scalar::Scalar;
use evosim::select::roulette_wheel::RouletteWheelSelection;
use evosim::simulation::{Simulation, GENERATION_LENGTH};
use evosim::world::animal::brain::BRAIN_GENES;
use evosim::world::animal::eyes::{Eyes, Sighting};
use evosim::world::animal::Animal;
use evosim::world::food::Food;
use evosim::world::individual::AnimalIndividual;
use evosim::world::{Body, Position, World, ANIMALS, FOODS};
use nalgebra::{wrap, Point2, Rotation2, Vector2};
use rand::{Rng, SeedableRng};
use rand_chacha::ChaCha8Rng;
use std::f32::consts::PI;

fn scalar(x: f32) -> Scalar {
    Scalar::from_bits(x.to_bits())
}

fn float(x: Scalar) -> f32 {
    f32::from_bits(x.to_bits())
}

fn place(x: f32, y: f32) -> Position {
    Position { x: scalar(x), y: scalar(y) }
}

fn point(position: Position) -> Point2<f32> {
    Point2::new(float(position.x), float(position.y))
}

fn bits(genes: &[Scalar]) -> Vec<u32> {
    genes.iter().map(|gene| gene.to_bits()).collect()
}

fn draw_place(rng: &mut ChaCha8Rng) -> Position {
    let place: Point2<f32> = rng.gen();
    Position { x: scalar(place.x), y: scalar(place.y) }
}

fn draw_weight(rng: &mut ChaCha8Rng) -> Scalar {
    scalar(rng.gen_range(-1.0..=1.0))
}

fn draw_body(rng: &mut ChaCha8Rng) -> Body {
    let position = draw_place(rng);
    let rotation: Rotation2<f32> = rng.gen();
    let speed = scalar(rng.gen_range(0.0006..=0.0012));
    Body { position, rotation: scalar(rotation.angle()), speed }
}

fn draw_food(rng: &mut ChaCha8Rng) -> Food {
    let r: u8 = rng.gen();
    let g: u8 = rng.gen();
    let b: u8 = rng.gen();
    Food::new(draw_place(rng), format!("rgb({}, {}, {})", r, g, b))
}

fn relu(neuron: &Neuron, inputs: &Vec<Scalar>) -> Scalar {
    assert_eq!(inputs.len(), neuron.weights().len());
    let sum: f32 = inputs
        .iter()
        .zip(neuron.weights().iter())
        .map(|(input, weight)| float(*input) * float(*weight))
        .sum();
    scalar((sum + float(neuron.bias())).max(0.0))
}

fn distance(a: Position, b: Position) -> Scalar {
    scalar(nalgebra::distance(&point(a), &point(b)))
}

fn sight(eyes: &Eyes, here: Position, rotation: Scalar, there: Position) -> Option<Sighting> {
    let fov_range = float(eyes.fov_range());
    let fov_angle = float(eyes.fov_angle());

    let vec = point(there) - point(here);
    let dist = vec.norm();
    if dist > fov_range {
        return None;
    }

    let angle = Rotation2::rotation_between(&Vector2::y(), &vec).angle();
    let angle = angle - Rotation2::new(float(rotation)).angle();
    let angle = wrap(angle, -PI, PI);
    if angle < -fov_angle / 2.0 || angle > fov_angle / 2.0 {
        return None;
    }

    let angle = angle + fov_angle / 2.0;
    let cell = angle / fov_angle;
    let cell = cell * (eyes.cells() as f32);
    let energy = (fov_range - dist) / fov_range;

    Some(Sighting { whole_cells: cell as usize, energy: scalar(energy) })
}

fn sum(a: Scalar, b: Scalar) -> Scalar {
    scalar(float(a) + float(b))
}

fn turn(rotation: Scalar, change: Scalar) -> Scalar {
    scalar(Rotation2::new(float(rotation) + float(change)).angle())
}

fn advance(body: Body) -> Position {
    let rotation = Rotation2::new(float(body.rotation));
    let mut place = point(body.position);
    place += rotation * Vector2::new(0.0, float(body.speed));
    place.x = wrap(place.x, 0.0, 1.0);
    place.y = wrap(place.y, 0.0, 1.0);
    Position { x: scalar(place.x), y: scalar(place.y) }
}

fn physics() -> Physics<
    impl Fn(Position, Position) -> Scalar,
    impl Fn(&Eyes, Position, Scalar, Position) -> Option<Sighting>,
    impl Fn(Scalar, Scalar) -> Scalar,
    impl Fn(&Neuron, &Vec<Scalar>) -> Scalar,
    impl Fn(Scalar, Scalar) -> Scalar,
    impl Fn(Body) -> Position,
    impl Fn(&mut ChaCha8Rng) -> Body,
    impl Fn(&mut ChaCha8Rng) -> Position,
> {
    Physics { distance, sight, sum, activate: relu, turn, advance, draw_body, draw_place }
}

fn random_animal(rng: &mut ChaCha8Rng) -> Animal {
    Animal::random(rng, &draw_weight, &draw_body)
}

fn random_world(rng: &mut ChaCha8Rng) -> World {
    World::random(rng, &draw_weight, &draw_body, &draw_food)
}

fn animal_at(x: f32, y: f32, rotation: f32, gene: f32) -> Animal {
    Animal::from_chromosome(
        Chromosome::new(vec![scalar(gene); BRAIN_GENES]),
        place(x, y),
        scalar(rotation),
        scalar(0.001),
    )
    .unwrap()
}

fn food_at(x: f32, y: f32) -> Food {
    Food::new(place(x, y), "rgb(0, 0, 0)".to_string())
}

type Hit = fn(&mut ChaCha8Rng, Scalar) -> bool;
type Nudge = fn(&mut ChaCha8Rng, Scalar, bool, Scalar) -> Scalar;

fn hit(rng: &mut ChaCha8Rng, chance: Scalar) -> bool {
    rng.gen_bool(float(chance) as f64)
}

fn nudge(rng: &mut ChaCha8Rng, gene: Scalar, up: bool, coeff: Scalar) -> Scalar {
    let sign = if up { 1.0 } else { -1.0 };
    scalar(float(gene) + sign * rng.gen::<f32>() * float(coeff))
}

fn gaussian(chance: f32, coeff: f32) -> GaussianMutation<Hit, Nudge> {
    GaussianMutation::new(scalar(chance), scalar(coeff), hit as Hit, nudge as Nudge)
}

struct Unchanged;

impl MutationMethod for Unchanged {
    fn mutate(&self, _chromosome: &mut Chromosome, _rng: &mut ChaCha8Rng) {}
}

fn random_simulation_of(rng: &mut ChaCha8Rng) -> Simulation<GaussianMutation<Hit, Nudge>> {
    Simulation::random(
        rng,
        gaussian(0.01, 0.3),
        &draw_weight,
        &draw_body,
        &draw_food,
    )
}

#[test]
fn random_simulation() {
    let mut rng = ChaCha8Rng::from_seed(Default::default());
    let sim = random_simulation_of(&mut rng);

    assert_eq!(sim.world().animals().len(), 40);
    assert_eq!(sim.world().food().len(), 60);
}

#[test]
fn a_random_simulation_begins_hungry_and_within_bounds() {
    let mut rng = ChaCha8Rng::seed_from_u64(8);
    let sim = random_simulation_of(&mut rng);
    assert_eq!(sim.age(), 0);
    assert_eq!(sim.world().animals().len(), ANIMALS);
    assert_eq!(sim.world().food().len(), FOODS);
    for animal in sim.world().animals() {
        assert_eq!(animal.satiation(), 0);
        assert_eq!(animal.as_chromosome().len(), BRAIN_GENES);
        assert!((0.0006..=0.0012).contains(&float(animal.speed())));
        assert!(animal
            .as_chromosome()
            .iter()
            .iter()
            .all(|gene| (-1.0..=1.0).contains(&float(*gene))));
    }
}

#[test]
fn a_random_simulation_draws_its_animals_before_its_food() {
    let mut rng = ChaCha8Rng::seed_from_u64(17);
    let sim = random_simulation_of(&mut rng);

    let mut again = ChaCha8Rng::seed_from_u64(17);
    for animal in sim.world().animals() {
        let expected = random_animal(&mut again);
        assert_eq!(
            bits(animal.as_chromosome().iter()),
            bits(expected.as_chromosome().iter())
        );
        assert_eq!(animal.position().x.to_bits(), expected.position().x.to_bits());
        assert_eq!(animal.rotation().to_bits(), expected.rotation().to_bits());
        assert_eq!(animal.speed().to_bits(), expected.speed().to_bits());
    }
    for food in sim.world().food() {
        let expected = draw_food(&mut again);
        assert_eq!(food.color(), expected.color());
        assert_eq!(food.position().x.to_bits(), expected.position().x.to_bits());
        assert_eq!(food.position().y.to_bits(), expected.position().y.to_bits());
    }
    assert_eq!(rng.gen::<u64>(), again.gen::<u64>());
}

#[test]
fn one_generation_ends_with_exactly_one_evolution() {
    let mut rng = ChaCha8Rng::from_seed(Default::default());
    let mut sim = random_simulation_of(&mut rng);
    let colors: Vec<String> =
        sim.world().food().iter().map(|food| food.color().to_string()).collect();
    let genes: Vec<Vec<u32>> = sim
        .world()
        .animals()
        .iter()
        .map(|animal| bits(animal.as_chromosome().iter()))
        .collect();

    let mut evolutions = 0;
    for step in 0..GENERATION_LENGTH {
        assert_eq!(sim.age(), step);
        if sim.step(&mut rng, &physics()) {
            evolutions += 1;
        }
    }
    assert_eq!(evolutions, 0);
    assert_eq!(sim.age(), GENERATION_LENGTH);
    assert_eq!(sim.world().animals().len(), ANIMALS);
    assert_eq!(sim.world().food().len(), FOODS);
    let genes_now: Vec<Vec<u32>> = sim
        .world()
        .animals()
        .iter()
        .map(|animal| bits(animal.as_chromosome().iter()))
        .collect();
    assert_eq!(genes_now, genes);
    let meals: usize = sim.world().animals().iter().map(|animal| animal.satiation()).sum();
    assert!(meals > 0);
    for animal in sim.world().animals() {
        assert!((0.0006..=0.0012).contains(&float(animal.speed())));
        assert!((0.0..=1.0).contains(&float(animal.position().x)));
        assert!((0.0..=1.0).contains(&float(animal.position().y)));
        assert!((-PI..=PI).contains(&float(animal.rotation())));
    }

    assert!(sim.step(&mut rng, &physics()));
    assert_eq!(sim.age(), 0);
    assert_eq!(sim.world().animals().len(), ANIMALS);
    assert_eq!(sim.world().food().len(), FOODS);
    for animal in sim.world().animals() {
        assert_eq!(animal.satiation(), 0);
        assert_eq!(animal.as_chromosome().len(), BRAIN_GENES);
    }
    let colors_after: Vec<String> =
        sim.world().food().iter().map(|food| food.color().to_string()).collect();
    assert_eq!(colors_after, colors);

    assert!(!sim.step(&mut rng, &physics()));
    assert_eq!(sim.age(), 1);
}

#[test]
fn two_runs_from_one_seed_are_the_same() {
    let run = || {
        let mut rng = ChaCha8Rng::seed_from_u64(2024);
        let mut sim = random_simulation_of(&mut rng);
        for _ in 0..300 {
            sim.step(&mut rng, &physics());
        }
        let animals: Vec<(u32, u32, u32, u32, usize)> = sim
            .world()
            .animals()
            .iter()
            .map(|animal| {
                (
                    animal.position().x.to_bits(),
                    animal.position().y.to_bits(),
                    animal.rotation().to_bits(),
                    animal.speed().to_bits(),
                    animal.satiation(),
                )
            })
            .collect();
        let foods: Vec<(u32, u32)> = sim
            .world()
            .food()
            .iter()
            .map(|food| (food.position().x.to_bits(), food.position().y.to_bits()))
            .collect();
        (animals, foods)
    };
    assert_eq!(run(), run());
}

#[test]
fn evolution_breeds_from_the_animals_that_ate() {
    // Animals 2 and 4 stand on food and eat it in the last step of the
    // generation; nobody is near the place where the food is laid down again.
    let far = |_rng: &mut ChaCha8Rng| place(0.9, 0.9);
    let still = |body: Body| body.position;
    let quiet = Physics {
        distance,
        sight,
        sum,
        activate: relu,
        turn,
        advance: still,
        draw_body,
        draw_place: far,
    };
    let empty = Physics {
        distance: |_a: Position, _b: Position| scalar(1.0),
        sight,
        sum,
        activate: relu,
        turn,
        advance: still,
        draw_body,
        draw_place: far,
    };

    let mut rng = ChaCha8Rng::seed_from_u64(42);
    let animals: Vec<Animal> = (0..6).map(|n| animal_at(0.1 * n as f32, 0.1, 0.0, n as f32)).collect();
    let foods = vec![food_at(0.2, 0.1), food_at(0.4, 0.1), food_at(0.4, 0.105)];
    let mut sim = Simulation::new(World::new(animals, foods), Unchanged);
    for _ in 0..GENERATION_LENGTH {
        assert!(!sim.step(&mut rng, &empty));
    }
    assert!(sim.world().animals().iter().all(|animal| animal.satiation() == 0));

    let mut expected = rng.clone();
    assert!(sim.step(&mut rng, &quiet));
    assert_eq!(sim.world().animals().len(), 6);
    for animal in sim.world().animals() {
        for gene in animal.as_chromosome().iter() {
            let gene = float(*gene);
            assert!(gene == 2.0 || gene == 4.0, "{}", gene);
        }
        assert_eq!(animal.satiation(), 0);
    }

    // The random source goes to the algorithm first, then to the bodies, then
    // to the food.
    let population: Vec<AnimalIndividual> = (0..6)
        .map(|n| {
            let mut animal = animal_at(0.0, 0.0, 0.0, n as f32);
            for _ in 0..(if n == 2 { 1 } else if n == 4 { 2 } else { 0 }) {
                animal.feed();
            }
            AnimalIndividual::from_animal(&animal)
        })
        .collect();
    let ga = GeneticAlgorithm::new(RouletteWheelSelection::new(), UniformCrossover::new(), Unchanged);
    let children = ga.evolve(&population, &mut expected);
    for (animal, child) in sim.world().animals().iter().zip(children.iter()) {
        assert_eq!(bits(animal.as_chromosome().iter()), bits(child.chromosome().iter()));
        let body = draw_body(&mut expected);
        assert_eq!(animal.position().x.to_bits(), body.position.x.to_bits());
        assert_eq!(animal.position().y.to_bits(), body.position.y.to_bits());
        assert_eq!(animal.rotation().to_bits(), body.rotation.to_bits());
        assert_eq!(animal.speed().to_bits(), body.speed.to_bits());
    }
    for food in sim.world().food() {
        assert_eq!(float(food.position().x), 0.9);
        assert_eq!(float(food.position().y), 0.9);
    }
    assert_eq!(rng.gen::<u64>(), expected.gen::<u64>());
}
