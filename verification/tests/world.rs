use evosim::chromosome::Chromosome;
use evosim::individual::Individual;
use evosim::neural_network::neuron::Neuron;
use evosim::neural_network::{Network, NetworkError};
use evosim::physics::Physics;
use evosim::scalar::Scalar;
use evosim::world::animal::brain::{Brain, BRAIN_GENES, OUTPUTS};
use evosim::world::animal::eyes::{
    Eyes, InvalidParameter, Sighting, CELLS, FOV_ANGLE_BITS, FOV_RANGE_BITS,
};
use evosim::world::animal::{
    Animal, ROTATION_ACCEL_BITS, SPEED_ACCEL_BITS, SPEED_MAX_BITS, SPEED_MIN_BITS,
};
use evosim::world::food::Food;
use evosim::world::individual::AnimalIndividual;
use evosim::world::{Body, Position, World, ANIMALS, EATING_RADIUS_BITS, FOODS};
use nalgebra::{wrap, Point2, Rotation2, Vector2};
use rand::{Rng, SeedableRng};
use rand_chacha::ChaCha8Rng;
use std::f32::consts::PI;

fn scalar(x: f32) -> Scalar {
    Scalar::from_bits(x.to_bits())
}

fn float(x: Scalar) -> f32 {
    f32::from_bits(x.to_bits())
}

fn place(x: f32, y: f32) -> Position {
    Position { x: scalar(x), y: scalar(y) }
}

fn point(position: Position) -> Point2<f32> {
    Point2::new(float(position.x), float(position.y))
}

fn bits(genes: &[Scalar]) -> Vec<u32> {
    genes.iter().map(|gene| gene.to_bits()).collect()
}

fn draw_place(rng: &mut ChaCha8Rng) -> Position {
    let place: Point2<f32> = rng.gen();
    Position { x: scalar(place.x), y: scalar(place.y) }
}

fn draw_weight(rng: &mut ChaCha8Rng) -> Scalar {
    scalar(rng.gen_range(-1.0..=1.0))
}

fn draw_body(rng: &mut ChaCha8Rng) -> Body {
    let position = draw_place(rng);
    let rotation: Rotation2<f32> = rng.gen();
    let speed = scalar(rng.gen_range(0.0006..=0.0012));
    Body { position, rotation: scalar(rotation.angle()), speed }
}

fn draw_food(rng: &mut ChaCha8Rng) -> Food {
    let r: u8 = rng.gen();
    let g: u8 = rng.gen();
    let b: u8 = rng.gen();
    Food::new(draw_place(rng), format!("rgb({}, {}, {})", r, g, b))
}

fn relu(neuron: &Neuron, inputs: &Vec<Scalar>) -> Scalar {
    assert_eq!(inputs.len(), neuron.weights().len());
    let sum: f32 = inputs
        .iter()
        .zip(neuron.weights().iter())
        .map(|(input, weight)| float(*input) * float(*weight))
        .sum();
    scalar((sum + float(neuron.bias())).max(0.0))
}

fn distance(a: Position, b: Position) -> Scalar {
    scalar(nalgebra::distance(&point(a), &point(b)))
}

fn sight(eyes: &Eyes, here: Position, rotation: Scalar, there: Position) -> Option<Sighting> {
    let fov_range = float(eyes.fov_range());
    let fov_angle = float(eyes.fov_angle());

    let vec = point(there) - point(here);
    let dist = vec.norm();
    if dist > fov_range {
        return None;
    }

    let angle = Rotation2::rotation_between(&Vector2::y(), &vec).angle();
    let angle = angle - Rotation2::new(float(rotation)).angle();
    let angle = wrap(angle, -PI, PI);
    if angle < -fov_angle / 2.0 || angle > fov_angle / 2.0 {
        return None;
    }

    let angle = angle + fov_angle / 2.0;
    let cell = angle / fov_angle;
    let cell = cell * (eyes.cells() as f32);
    let energy = (fov_range - dist) / fov_range;

    Some(Sighting { whole_cells: cell as usize, energy: scalar(energy) })
}

fn sum(a: Scalar, b: Scalar) -> Scalar {
    scalar(float(a) + float(b))
}

fn turn(rotation: Scalar, change: Scalar) -> Scalar {
    scalar(Rotation2::new(float(rotation) + float(change)).angle())
}

fn advance(body: Body) -> Position {
    let rotation = Rotation2::new(float(body.rotation));
    let mut place = point(body.position);
    place += rotation * Vector2::new(0.0, float(body.speed));
    place.x = wrap(place.x, 0.0, 1.0);
    place.y = wrap(place.y, 0.0, 1.0);
    Position { x: scalar(place.x), y: scalar(place.y) }
}

fn physics() -> Physics<
    impl Fn(Position, Position) -> Scalar,
    impl Fn(&Eyes, Position, Scalar, Position) -> Option<Sighting>,
    impl Fn(Scalar, Scalar) -> Scalar,
    impl Fn(&Neuron, &Vec<Scalar>) -> Scalar,
    impl Fn(Scalar, Scalar) -> Scalar,
    impl Fn(Body) -> Position,
    impl Fn(&mut ChaCha8Rng) -> Body,
    impl Fn(&mut ChaCha8Rng) -> Position,
> {
    Physics { distance, sight, sum, activate: relu, turn, advance, draw_body, draw_place }
}

fn random_animal(rng: &mut ChaCha8Rng) -> Animal {
    Animal::random(rng, &draw_weight, &draw_body)
}

fn random_world(rng: &mut ChaCha8Rng) -> World {
    World::random(rng, &draw_weight, &draw_body, &draw_food)
}

fn animal_at(x: f32, y: f32, rotation: f32, gene: f32) -> Animal {
    Animal::from_chromosome(
        Chromosome::new(vec![scalar(gene); BRAIN_GENES]),
        place(x, y),
        scalar(rotation),
        scalar(0.001),
    )
    .unwrap()
}

fn food_at(x: f32, y: f32) -> Food {
    Food::new(place(x, y), "rgb(0, 0, 0)".to_string())
}

#[test]
fn a_random_animal_draws_its_brain_before_its_body() {
    let mut rng = ChaCha8Rng::seed_from_u64(31);
    let animal = random_animal(&mut rng);

    let mut again = ChaCha8Rng::seed_from_u64(31);
    let genes: Vec<u32> = (0..BRAIN_GENES).map(|_| draw_weight(&mut again).to_bits()).collect();
    let body = draw_body(&mut again);

    assert_eq!(bits(animal.as_chromosome().iter()), genes);
    assert_eq!(animal.position().x.to_bits(), body.position.x.to_bits());
    assert_eq!(animal.rotation().to_bits(), body.rotation.to_bits());
    assert_eq!(animal.speed().to_bits(), body.speed.to_bits());
    assert_eq!(animal.satiation(), 0);
    assert_eq!(rng.gen::<u64>(), again.gen::<u64>());
}

#[test]
fn animal_from_chromosome_asks_for_the_genes_of_a_brain() {
    for len in [0, 1, BRAIN_GENES - 1] {
        let genes = Chromosome::new(vec![scalar(0.5); len]);
        let r = Animal::from_chromosome(genes, place(0.0, 0.0), scalar(0.0), scalar(0.0));
        assert_eq!(r.err(), Some(NetworkError::NotEnoughWeights));
    }
    let genes = Chromosome::new(vec![scalar(0.5); BRAIN_GENES + 1]);
    let r = Animal::from_chromosome(genes, place(0.0, 0.0), scalar(0.0), scalar(0.0));
    assert_eq!(r.err(), Some(NetworkError::TooManyWeights));

    let genes: Vec<Scalar> = (0..BRAIN_GENES).map(|n| scalar(n as f32)).collect();
    let animal = Animal::from_chromosome(
        Chromosome::new(genes.clone()),
        place(0.1, 0.2),
        scalar(0.3),
        scalar(0.001),
    )
    .unwrap();
    assert_eq!(bits(animal.as_chromosome().iter()), bits(&genes));
    assert_eq!(animal.satiation(), 0);
    assert_eq!(float(animal.position().x), 0.1);
    assert_eq!(float(animal.position().y), 0.2);
    assert_eq!(float(animal.rotation()), 0.3);
    assert_eq!(float(animal.speed()), 0.001);
    assert_eq!(animal.eyes().cells(), CELLS);
    assert_eq!(bits(&animal.brain().network().weights()), bits(&genes));
}

#[test]
fn animal_individual_stands_for_its_animal() {
    let genes: Vec<Scalar> = (0..BRAIN_GENES).map(|n| scalar(-(n as f32))).collect();
    let mut animal = Animal::from_chromosome(
        Chromosome::new(genes.clone()),
        place(0.1, 0.2),
        scalar(0.3),
        scalar(0.001),
    )
    .unwrap();
    for _ in 0..5 {
        animal.feed();
    }
    let individual = AnimalIndividual::from_animal(&animal);
    assert_eq!(individual.fitness(), 5);
    assert_eq!(bits(individual.chromosome().iter()), bits(&genes));

    let reborn = individual.into_animal(place(0.6, 0.7), scalar(0.8), scalar(0.0009)).unwrap();
    assert_eq!(float(reborn.speed()), 0.0009);
    assert_eq!(reborn.satiation(), 0);
    assert_eq!(bits(reborn.as_chromosome().iter()), bits(&genes));
    assert_eq!(float(reborn.position().x), 0.6);

    let created = AnimalIndividual::create(Chromosome::new(vec![scalar(1.0); 3]));
    assert_eq!(created.fitness(), 0);
    assert_eq!(created.chromosome().len(), 3);
    assert_eq!(
        created.into_animal(place(0.0, 0.0), scalar(0.0), scalar(0.0)).err(),
        Some(NetworkError::NotEnoughWeights)
    );
}

#[test]
fn brain_topology_doubles_the_cells_and_ends_in_two() {
    let eyes = Eyes::new(scalar(1.0), scalar(1.0), 13).unwrap();
    let layers = Brain::topology(&eyes).unwrap();
    assert_eq!(layers.len(), 3);
    assert_eq!(layers[0].neurons, 13);
    assert_eq!(layers[1].neurons, 26);
    assert_eq!(layers[2].neurons, OUTPUTS);

    let default_layers = Brain::topology(&Eyes::default()).unwrap();
    assert_eq!(Network::weight_count(&default_layers), Some(BRAIN_GENES));

    let wide = Eyes::new(scalar(1.0), scalar(1.0), usize::MAX / 2 + 1).unwrap();
    assert!(Brain::topology(&wide).is_none());
    let widest = Eyes::new(scalar(1.0), scalar(1.0), usize::MAX / 2).unwrap();
    assert_eq!(Brain::topology(&widest).unwrap()[1].neurons, usize::MAX - 1);
}

#[test]
fn brain_from_chromosome_asks_for_the_genes_of_its_topology() {
    let eyes = Eyes::new(scalar(1.0), scalar(1.0), 1).unwrap();
    // [1, 2, 2]: 2 * 2 + 2 * 3 genes.
    let genes: Vec<Scalar> = (0..10).map(|n| scalar(n as f32)).collect();
    let brain = Brain::from_chromosome(Chromosome::new(genes.clone()), &eyes).ok().unwrap();
    assert_eq!(bits(brain.as_chromosome().iter()), bits(&genes));
    assert_eq!(brain.network().layers().len(), 2);

    let short = Brain::from_chromosome(Chromosome::new(genes[..9].to_vec()), &eyes);
    assert_eq!(short.err(), Some(NetworkError::NotEnoughWeights));
    let mut long = genes.clone();
    long.push(scalar(0.0));
    let long = Brain::from_chromosome(Chromosome::new(long), &eyes);
    assert_eq!(long.err(), Some(NetworkError::TooManyWeights));

    let wide = Eyes::new(scalar(1.0), scalar(1.0), usize::MAX).unwrap();
    let r = Brain::from_chromosome(Chromosome::new(genes), &wide);
    assert_eq!(r.err(), Some(NetworkError::NotEnoughWeights));
}

#[test]
fn eyes_must_see_somewhere() {
    assert!(Eyes::new(scalar(0.25), scalar(1.0), 9).is_ok());
    assert!(Eyes::new(scalar(f32::INFINITY), scalar(f32::MIN_POSITIVE), 1).is_ok());
    let bad = [0.0f32, -0.0, -1.0, f32::NAN, f32::NEG_INFINITY];
    for x in bad {
        assert_eq!(Eyes::new(scalar(x), scalar(1.0), 9).err(), Some(InvalidParameter), "{}", x);
        assert_eq!(Eyes::new(scalar(1.0), scalar(x), 9).err(), Some(InvalidParameter), "{}", x);
    }
    assert_eq!(Eyes::new(scalar(1.0), scalar(1.0), 0).err(), Some(InvalidParameter));

    let eyes = Eyes::new(scalar(0.5), scalar(2.0), 13).unwrap();
    assert_eq!(float(eyes.fov_range()), 0.5);
    assert_eq!(float(eyes.fov_angle()), 2.0);
    assert_eq!(eyes.cells(), 13);
}

#[test]
fn default_eyes_see_a_quarter_of_the_world_in_nine_cells() {
    let eyes = Eyes::default();
    assert_eq!(float(eyes.fov_range()), 0.25);
    assert_eq!(
        float(eyes.fov_angle()),
        std::f32::consts::PI + std::f32::consts::FRAC_PI_4
    );
    assert_eq!(eyes.cells(), 9);
    assert_eq!(FOV_RANGE_BITS, 0.25f32.to_bits());
    assert_eq!(
        FOV_ANGLE_BITS,
        (std::f32::consts::PI + std::f32::consts::FRAC_PI_4).to_bits()
    );
}

#[test]
fn a_sighting_never_falls_beyond_the_last_cell() {
    let eyes = Eyes::new(scalar(1.0), scalar(1.0), 13).unwrap();
    assert_eq!(eyes.cell_of(0), 0);
    assert_eq!(eyes.cell_of(6), 6);
    assert_eq!(eyes.cell_of(12), 12);
    assert_eq!(eyes.cell_of(13), 12);
    assert_eq!(eyes.cell_of(usize::MAX), 12);
    let one = Eyes::new(scalar(1.0), scalar(1.0), 1).unwrap();
    assert_eq!(one.cell_of(0), 0);
    assert_eq!(one.cell_of(5), 0);
}

#[test]
fn food_keeps_its_color_when_it_moves() {
    let mut food = Food::new(place(0.1, 0.2), "rgb(1, 2, 3)".to_string());
    assert_eq!(food.color(), "rgb(1, 2, 3)");
    food.move_to(place(0.3, 0.4));
    assert_eq!(float(food.position().x), 0.3);
    assert_eq!(float(food.position().y), 0.4);
    assert_eq!(food.color(), "rgb(1, 2, 3)");
}

#[test]
fn an_animal_answers_what_it_sees_with_two_values() {
    let mut rng = ChaCha8Rng::seed_from_u64(99);
    let animal = random_animal(&mut rng);
    let vision = vec![scalar(0.5); CELLS];
    let response = animal.think(vision.clone(), &relu);

    let outputs = animal.brain().network().propagate(vision, &relu);
    assert_eq!(outputs.len(), OUTPUTS);
    assert_eq!(float(response.speed), float(outputs[0]).clamp(-0.2, 0.2));
    assert_eq!(
        float(response.rotation),
        float(outputs[1]).clamp(-std::f32::consts::FRAC_PI_2, std::f32::consts::FRAC_PI_2)
    );
}

#[test]
fn an_animal_asks_for_no_more_than_a_step_may_change() {
    // A brain whose two outputs are its two biases, whatever it sees.
    fn animal_with_outputs(speed: f32, rotation: f32) -> Animal {
        let mut genes = vec![scalar(0.0); BRAIN_GENES];
        genes[BRAIN_GENES - 2 * (2 * CELLS + 1)] = scalar(speed);
        genes[BRAIN_GENES - (2 * CELLS + 1)] = scalar(rotation);
        Animal::from_chromosome(Chromosome::new(genes), place(0.5, 0.5), scalar(0.0), scalar(0.001))
            .unwrap()
    }
    let bias_only = |neuron: &Neuron, _inputs: &Vec<Scalar>| neuron.bias();
    let vision = vec![scalar(1.0); CELLS];

    let calm = animal_with_outputs(0.1, -1.0).think(vision.clone(), &bias_only);
    assert_eq!(float(calm.speed), 0.1);
    assert_eq!(float(calm.rotation), -1.0);

    let wild = animal_with_outputs(5.0, -7.0).think(vision.clone(), &bias_only);
    assert_eq!(float(wild.speed), 0.2);
    assert_eq!(float(wild.rotation), -std::f32::consts::FRAC_PI_2);

    let other = animal_with_outputs(-5.0, 7.0).think(vision.clone(), &bias_only);
    assert_eq!(float(other.speed), -0.2);
    assert_eq!(float(other.rotation), std::f32::consts::FRAC_PI_2);

    let lost = animal_with_outputs(f32::NAN, f32::INFINITY).think(vision, &bias_only);
    assert!(float(lost.speed).is_nan());
    assert_eq!(float(lost.rotation), std::f32::consts::FRAC_PI_2);
}

#[test]
fn the_speed_of_an_animal_stays_within_its_bounds() {
    let genes = vec![scalar(0.0); BRAIN_GENES];
    for (asked, taken) in [
        (0.001f32, 0.001f32),
        (0.0006, 0.0006),
        (0.0012, 0.0012),
        (0.002, 0.0012),
        (0.0, 0.0006),
        (-1.0, 0.0006),
        (f32::INFINITY, 0.0012),
        (f32::NEG_INFINITY, 0.0006),
    ] {
        let mut animal = Animal::from_chromosome(
            Chromosome::new(genes.clone()),
            place(0.5, 0.5),
            scalar(0.0),
            scalar(asked),
        )
        .unwrap();
        assert_eq!(float(animal.speed()), taken, "created at {}", asked);
        assert_eq!(float(Animal::bound_speed(scalar(asked))), asked.clamp(0.0006, 0.0012));

        animal.steer(scalar(1.0), scalar(0.001));
        assert_eq!(float(animal.speed()), 0.001);
        animal.steer(scalar(2.0), scalar(asked));
        assert_eq!(float(animal.speed()), taken, "steered to {}", asked);
        assert_eq!(float(animal.rotation()), 2.0);
    }
    assert_eq!(SPEED_MIN_BITS, 0.0006f32.to_bits());
    assert_eq!(SPEED_MAX_BITS, 0.0012f32.to_bits());
    assert_eq!(SPEED_ACCEL_BITS, 0.2f32.to_bits());
    assert_eq!(ROTATION_ACCEL_BITS, std::f32::consts::FRAC_PI_2.to_bits());
}

#[test]
fn an_animal_eats_what_lies_within_a_hundredth_of_the_world() {
    assert_eq!(EATING_RADIUS_BITS, 0.01f32.to_bits());
    for distance in [0.0f32, 0.005, 0.01, 0.010_000_001, 0.02, 1.0, f32::NAN, f32::INFINITY] {
        assert_eq!(World::within_reach(scalar(distance)), distance <= 0.01, "{}", distance);
    }
}

#[test]
fn a_random_brain_fits_its_eyes() {
    let mut rng = ChaCha8Rng::seed_from_u64(21);
    let eyes = Eyes::new(scalar(1.0), scalar(1.0), 4).unwrap();
    let brain = Brain::random(&mut rng, &eyes, &|rng: &mut ChaCha8Rng| {
        scalar(rng.gen_range(-1.0..=1.0))
    })
    .unwrap();
    let layers = brain.network().layers();
    assert_eq!(layers.len(), 2);
    assert_eq!(layers[0].neurons().len(), 8);
    assert!(layers[0].neurons().iter().all(|neuron| neuron.weights().len() == 4));
    assert_eq!(layers[1].neurons().len(), OUTPUTS);
    assert!(layers[1].neurons().iter().all(|neuron| neuron.weights().len() == 8));
    assert_eq!(brain.as_chromosome().len(), 8 * 5 + 2 * 9);

    let wide = Eyes::new(scalar(1.0), scalar(1.0), usize::MAX).unwrap();
    let none = Brain::random(&mut rng, &wide, &|rng: &mut ChaCha8Rng| {
        scalar(rng.gen_range(-1.0..=1.0))
    });
    assert!(none.is_none());
}

const TEST_EYE_CELLS: usize = 13;

fn picture(foods: &[Food], fov_range: f32, fov_angle: f32, x: f32, y: f32, rot: f32) -> String {
    let eye = Eyes::new(scalar(fov_range), scalar(fov_angle), TEST_EYE_CELLS).unwrap();
    let vision = eye.process_vision(place(x, y), scalar(rot), foods, &sight, &sum);
    assert_eq!(vision.len(), TEST_EYE_CELLS);
    vision
        .into_iter()
        .map(|cell| {
            let cell = float(cell);
            if cell >= 0.7 {
                "#"
            } else if cell >= 0.3 {
                "+"
            } else if cell > 0.0 {
                "."
            } else {
                " "
            }
        })
        .collect::<Vec<_>>()
        .join("")
}

#[test]
fn eyes_with_different_fov_ranges() {
    let cases = [
        (1.0, "      +      "),
        (0.9, "      +      "),
        (0.8, "      +      "),
        (0.7, "      .      "),
        (0.6, "      .      "),
        (0.5, "             "),
        (0.4, "             "),
        (0.3, "             "),
        (0.2, "             "),
        (0.1, "             "),
    ];
    for (fov_range, expected) in cases {
        let foods = vec![food_at(0.5, 1.0)];
        let actual = picture(&foods, fov_range, std::f32::consts::FRAC_PI_2, 0.5, 0.5, 0.0);
        assert_eq!(actual, expected, "range {}", fov_range);
    }
}

#[test]
fn eyes_with_different_rotations() {
    let cases = [
        (0.00 * PI, "         +   "),
        (0.25 * PI, "        +    "),
        (0.50 * PI, "      +      "),
        (0.75 * PI, "    +        "),
        (1.00 * PI, "   +         "),
        (1.25 * PI, " +           "),
        (1.50 * PI, "            +"),
        (1.75 * PI, "           + "),
        (2.00 * PI, "         +   "),
        (2.25 * PI, "        +    "),
        (2.50 * PI, "      +      "),
    ];
    for (rot, expected) in cases {
        let foods = vec![food_at(0.0, 0.5)];
        let actual = picture(&foods, 1.0, 2.0 * PI, 0.5, 0.5, rot);
        assert_eq!(actual, expected, "rotation {}", rot);
    }
}

#[test]
fn eyes_at_different_positions() {
    let cases = [
        (0.9, 0.5, "#           #"),
        (0.8, 0.5, "  #       #  "),
        (0.7, 0.5, "   +     +   "),
        (0.6, 0.5, "    +   +    "),
        (0.5, 0.5, "    +   +    "),
        (0.4, 0.5, "     + +     "),
        (0.3, 0.5, "     . .     "),
        (0.2, 0.5, "     . .     "),
        (0.1, 0.5, "     . .     "),
        (0.0, 0.5, "             "),
        (0.5, 0.0, "            +"),
        (0.5, 0.1, "          + ."),
        (0.5, 0.2, "         +  +"),
        (0.5, 0.3, "        + +  "),
        (0.5, 0.4, "      +  +   "),
        (0.5, 0.6, "   +  +      "),
        (0.5, 0.7, "  + +        "),
        (0.5, 0.8, "+  +         "),
        (0.5, 0.9, ". +          "),
        (0.5, 1.0, "+            "),
    ];
    for (x, y, expected) in cases {
        let foods = vec![food_at(1.0, 0.4), food_at(1.0, 0.6)];
        let actual = picture(
            &foods,
            1.0,
            std::f32::consts::FRAC_PI_2,
            x,
            y,
            3.0 * std::f32::consts::FRAC_PI_2,
        );
        assert_eq!(actual, expected, "at {}, {}", x, y);
    }
}

#[test]
fn eyes_with_different_fov_angles() {
    let cases = [
        (0.25 * PI, " +         + "),
        (0.50 * PI, ".  +     +  ."),
        (0.75 * PI, "  . +   + .  "),
        (1.00 * PI, "   . + + .   "),
        (1.25 * PI, "   . + + .   "),
        (1.50 * PI, ".   .+ +.   ."),
        (1.75 * PI, ".   .+ +.   ."),
        (2.00 * PI, "+.  .+ +.  .+"),
    ];
    for (fov_angle, expected) in cases {
        let foods = vec![
            food_at(0.0, 0.0),
            food_at(0.0, 0.33),
            food_at(0.0, 0.66),
            food_at(0.0, 1.0),
            food_at(1.0, 0.0),
            food_at(1.0, 0.33),
            food_at(1.0, 0.66),
            food_at(1.0, 1.0),
        ];
        let actual = picture(
            &foods,
            1.0,
            fov_angle,
            0.5,
            0.5,
            3.0 * std::f32::consts::FRAC_PI_2,
        );
        assert_eq!(actual, expected, "angle {}", fov_angle);
    }
}

#[test]
fn food_straight_ahead_falls_into_the_middle_cell_and_no_other() {
    let eye = Eyes::new(scalar(0.5), scalar(std::f32::consts::FRAC_PI_2), 13).unwrap();
    let foods = vec![food_at(0.5, 0.75)];
    let vision = eye.process_vision(place(0.5, 0.5), scalar(0.0), &foods, &sight, &sum);
    assert_eq!(vision.len(), 13);
    for (cell, value) in vision.iter().enumerate() {
        if cell == 6 {
            assert_eq!(float(*value), 0.5);
        } else {
            assert_eq!(value.to_bits(), 0, "cell {}", cell);
        }
    }
}

#[test]
fn food_at_the_edge_of_the_view_is_seen_in_the_last_cell() {
    // The food lies a quarter turn to the left, and the view is half a turn
    // wide: the food is on its edge.
    let eye = Eyes::new(scalar(1.0), scalar(PI), 4).unwrap();
    let here = place(0.5, 0.5);
    let left = vec![food_at(0.25, 0.5)];
    let vision = eye.process_vision(here, scalar(0.0), &left, &sight, &sum);
    assert_eq!(
        vision.iter().map(|cell| float(*cell)).collect::<Vec<_>>(),
        vec![0.0, 0.0, 0.0, 0.75]
    );
    let right = vec![food_at(0.75, 0.5)];
    let vision = eye.process_vision(here, scalar(0.0), &right, &sight, &sum);
    assert_eq!(
        vision.iter().map(|cell| float(*cell)).collect::<Vec<_>>(),
        vec![0.75, 0.0, 0.0, 0.0]
    );
    // A little further round, and it is out of view.
    let behind = vec![food_at(0.25, 0.49)];
    let vision = eye.process_vision(here, scalar(0.0), &behind, &sight, &sum);
    assert!(vision.iter().all(|cell| cell.to_bits() == 0));
}

#[test]
fn food_in_one_cell_adds_up() {
    let eye = Eyes::new(scalar(1.0), scalar(PI), 3).unwrap();
    let foods = vec![food_at(0.5, 0.75), food_at(0.5, 1.0), food_at(0.5, 3.0)];
    let vision = eye.process_vision(place(0.5, 0.5), scalar(0.0), &foods, &sight, &sum);
    assert_eq!(
        vision.iter().map(|cell| float(*cell)).collect::<Vec<_>>(),
        vec![0.0, 0.75 + 0.5, 0.0]
    );
    let nothing = eye.process_vision(place(0.5, 0.5), scalar(0.0), &[], &sight, &sum);
    assert_eq!(bits(&nothing), vec![0, 0, 0]);
}

#[test]
fn an_animal_on_food_eats_it_and_the_food_is_laid_down_elsewhere() {
    let mut rng = ChaCha8Rng::seed_from_u64(4);
    let animals = vec![animal_at(0.2, 0.2, 0.0, 0.0), animal_at(0.7, 0.7, 0.0, 0.0)];
    let foods = vec![food_at(0.2, 0.205), food_at(0.5, 0.5), food_at(0.7, 0.71)];
    let mut world = World::new(animals, foods);

    let mut again = rng.clone();
    world.process_collisions(&mut rng, &distance, &draw_place);

    assert_eq!(world.animals()[0].satiation(), 1);
    assert_eq!(world.animals()[1].satiation(), 1);
    let first = draw_place(&mut again);
    let second = draw_place(&mut again);
    assert_eq!(world.food()[0].position().x.to_bits(), first.x.to_bits());
    assert_eq!(world.food()[0].position().y.to_bits(), first.y.to_bits());
    assert_eq!(float(world.food()[1].position().x), 0.5);
    assert_eq!(world.food()[2].position().x.to_bits(), second.x.to_bits());
    assert_eq!(world.food()[2].color(), "rgb(0, 0, 0)");
    assert_eq!(rng.gen::<u64>(), again.gen::<u64>());
    assert_eq!(world.animals().len(), 2);
    assert_eq!(world.food().len(), 3);
}

#[test]
fn food_that_is_laid_down_on_a_later_animal_is_eaten_again() {
    let mut rng = ChaCha8Rng::seed_from_u64(4);
    let animals = vec![animal_at(0.2, 0.2, 0.0, 0.0), animal_at(0.7, 0.7, 0.0, 0.0)];
    let foods = vec![food_at(0.2, 0.2)];
    let mut world = World::new(animals, foods);
    let onto_the_other = |_rng: &mut ChaCha8Rng| place(0.7, 0.7);
    world.process_collisions(&mut rng, &distance, &onto_the_other);
    assert_eq!(world.animals()[0].satiation(), 1);
    assert_eq!(world.animals()[1].satiation(), 1);
}

#[test]
fn eat_counts_a_meal_and_moves_the_food() {
    let mut rng = ChaCha8Rng::seed_from_u64(1);
    let mut world = random_world(&mut rng);
    let color = world.food()[3].color().to_string();
    world.eat(7, 3, place(0.5, 0.25));
    world.eat(7, 4, place(0.75, 0.5));
    assert_eq!(world.animals()[7].satiation(), 2);
    assert_eq!(world.animals()[6].satiation(), 0);
    assert_eq!(float(world.food()[3].position().x), 0.5);
    assert_eq!(float(world.food()[3].position().y), 0.25);
    assert_eq!(float(world.food()[4].position().x), 0.75);
    assert_eq!(world.food()[3].color(), color);
    assert_eq!(world.animals().len(), ANIMALS);
    assert_eq!(world.food().len(), FOODS);
}

#[test]
fn an_animal_that_leaves_the_world_comes_in_on_the_other_side() {
    let up = animal_at(0.5, 0.9995, 0.0, 0.0);
    let left = animal_at(0.0005, 0.5, std::f32::consts::FRAC_PI_2, 0.0);
    let down = animal_at(0.5, 0.0005, PI, 0.0);
    let mut world = World::new(vec![up, left, down], vec![]);
    world.process_movements(&advance);

    let up = &world.animals()[0];
    assert_eq!(float(up.position().x), 0.5);
    assert!((float(up.position().y) - 0.0005).abs() < 1e-6);
    let left = &world.animals()[1];
    assert!((float(left.position().x) - 0.9995).abs() < 1e-6);
    let down = &world.animals()[2];
    assert!((float(down.position().y) - 0.9995).abs() < 1e-6);
    for animal in world.animals() {
        assert!((0.0..=1.0).contains(&float(animal.position().x)));
        assert!((0.0..=1.0).contains(&float(animal.position().y)));
        assert_eq!(float(animal.speed()), 0.001);
    }
}

#[test]
fn an_animal_steers_as_its_brain_says() {
    // A brain whose two outputs are its two biases, whatever it sees.
    let mut genes = vec![scalar(0.0); BRAIN_GENES];
    genes[BRAIN_GENES - 2 * (2 * CELLS + 1)] = scalar(0.0001);
    genes[BRAIN_GENES - (2 * CELLS + 1)] = scalar(5.0);
    let animal =
        Animal::from_chromosome(Chromosome::new(genes), place(0.5, 0.5), scalar(1.0), scalar(0.001))
            .unwrap();
    let mut world = World::new(vec![animal], vec![food_at(0.5, 0.6)]);
    let bias_only = |neuron: &Neuron, _inputs: &Vec<Scalar>| neuron.bias();
    world.process_brains(&sight, &sum, &bias_only, &turn);

    let animal = &world.animals()[0];
    assert_eq!(float(animal.speed()), 0.001 + 0.0001);
    let expected = Rotation2::new(1.0 + std::f32::consts::FRAC_PI_2).angle();
    assert_eq!(float(animal.rotation()), expected);
    assert_eq!(float(animal.position().x), 0.5);
    assert_eq!(animal.satiation(), 0);

    for _ in 0..5 {
        world.process_brains(&sight, &sum, &bias_only, &turn);
    }
    assert_eq!(float(world.animals()[0].speed()), 0.0012);
}

#[test]
fn a_step_of_the_world_eats_then_steers_then_moves() {
    let mut rng = ChaCha8Rng::seed_from_u64(6);
    let mut world = random_world(&mut rng);
    let mut other = random_world(&mut ChaCha8Rng::seed_from_u64(6));

    let mut again = rng.clone();
    world.live(&mut rng, &physics());

    other.process_collisions(&mut again, &distance, &draw_place);
    other.process_brains(&sight, &sum, &relu, &turn);
    other.process_movements(&advance);

    for (animal, expected) in world.animals().iter().zip(other.animals().iter()) {
        assert_eq!(animal.position().x.to_bits(), expected.position().x.to_bits());
        assert_eq!(animal.position().y.to_bits(), expected.position().y.to_bits());
        assert_eq!(animal.rotation().to_bits(), expected.rotation().to_bits());
        assert_eq!(animal.speed().to_bits(), expected.speed().to_bits());
        assert_eq!(animal.satiation(), expected.satiation());
    }
    for (food, expected) in world.food().iter().zip(other.food().iter()) {
        assert_eq!(food.position().x.to_bits(), expected.position().x.to_bits());
        assert_eq!(food.position().y.to_bits(), expected.position().y.to_bits());
    }
    assert_eq!(rng.gen::<u64>(), again.gen::<u64>());
}

#[test]
fn a_random_world_has_forty_animals_and_sixty_items_of_food() {
    let mut rng = ChaCha8Rng::seed_from_u64(12);
    let world = random_world(&mut rng);
    assert_eq!(ANIMALS, 40);
    assert_eq!(FOODS, 60);
    assert_eq!(world.animals().len(), 40);
    assert_eq!(world.food().len(), 60);
    assert!(world.animals().iter().all(|animal| animal.satiation() == 0));
}

#[test]
fn feed_counts_every_meal() {
    let mut animal = animal_at(0.5, 0.5, 0.0, 0.0);
    animal.feed();
    animal.feed();
    assert_eq!(animal.satiation(), 2);
}

#[test]
fn a_snapshot_shows_the_world_as_it_is() {
    let mut rng = ChaCha8Rng::seed_from_u64(10);
    let mut world = random_world(&mut rng);
    world.eat(3, 5, place(0.5, 0.5));
    let snapshot = world.snapshot();
    assert_eq!(snapshot.animals.len(), ANIMALS);
    assert_eq!(snapshot.foods.len(), FOODS);
    for (seen, animal) in snapshot.animals.iter().zip(world.animals().iter()) {
        assert_eq!(seen.position.x.to_bits(), animal.position().x.to_bits());
        assert_eq!(seen.position.y.to_bits(), animal.position().y.to_bits());
        assert_eq!(seen.rotation.to_bits(), animal.rotation().to_bits());
        assert_eq!(seen.speed.to_bits(), animal.speed().to_bits());
    }
    for (seen, food) in snapshot.foods.iter().zip(world.food().iter()) {
        assert_eq!(seen.position.x.to_bits(), food.position().x.to_bits());
        assert_eq!(seen.position.y.to_bits(), food.position().y.to_bits());
        assert_eq!(seen.color, food.color());
    }
    assert_eq!(float(snapshot.foods[5].position.x), 0.5);
}
