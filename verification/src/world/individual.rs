//! An animal as the genetic algorithm sees it.

use vstd::prelude::*;
use crate::chromosome::Chromosome;
use crate::individual::Individual;
use crate::neural_network::NetworkError;
use crate::scalar::Scalar;
use crate::world::animal::brain::BRAIN_GENES;
use crate::world::animal::{bounded_speed, Animal, AnimalModel};
use crate::world::Position;

verus! {

/// The fitness that stands for `satiation` meals: their number, but no more
/// than 32 bits hold.
pub open spec fn fitness_of(satiation: nat) -> u32 {
    if satiation <= u32::MAX {
        satiation as u32
    } else {
        u32::MAX
    }
}

pub struct AnimalIndividual {
    fitness: u32,
    chromosome: Chromosome,
}

impl Individual for AnimalIndividual {
    type Fitness = u32;

    closed spec fn genes(&self) -> Seq<Scalar> {
        self.chromosome@
    }

    closed spec fn fitness_value(&self) -> u32 {
        self.fitness
    }

    fn fitness(&self) -> (r: u32) {
        self.fitness
    }

    fn chromosome(&self) -> (r: &Chromosome) {
        &self.chromosome
    }

    /// An individual of the given chromosome that has not eaten.
    fn create(chromosome: Chromosome) -> (r: Self)
        ensures
            r.fitness_value() == 0,
    {
        AnimalIndividual { fitness: 0, chromosome }
    }
}

impl AnimalIndividual {
    /// The individual that stands for `animal`: its fitness is the number of
    /// the animal's meals, its chromosome holds the genes of the animal's
    /// brain.
    pub fn from_animal(animal: &Animal) -> (r: Self)
        ensures
            r.fitness_value() == fitness_of(animal@.satiation),
            r.genes() == animal@.genes,
            r.genes().len() == BRAIN_GENES,
    {
        let satiation = animal.satiation();
        let fitness: u32 = if satiation <= 0xFFFF_FFFF {
            satiation as u32
        } else {
            u32::MAX
        };
        AnimalIndividual { fitness, chromosome: animal.as_chromosome() }
    }

    /// A hungry animal at the given place whose brain has the genes of this
    /// individual, of which there must be exactly `BRAIN_GENES`. Its speed is
    /// `speed` held between the lowest and the highest.
    pub fn into_animal(self, position: Position, rotation: Scalar, speed: Scalar) -> (r: Result<
        Animal,
        NetworkError,
    >)
        ensures
            r is Ok <==> self.genes().len() == BRAIN_GENES,
            r matches Ok(animal) ==> animal@ == (AnimalModel {
                position,
                rotation,
                speed: bounded_speed(speed),
                genes: self.genes(),
                satiation: 0,
            }),
            r matches Err(e) ==> e == if self.genes().len() < BRAIN_GENES {
                NetworkError::NotEnoughWeights
            } else {
                NetworkError::TooManyWeights
            },
    {
        Animal::from_chromosome(self.chromosome, position, rotation, speed)
    }
}

} // verus!
