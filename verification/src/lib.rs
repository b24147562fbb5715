//! Evolving a population of simple animals in a world that holds food.
//!
//! Every animal has a brain, a small feed-forward network. The genes of a
//! brain are the biases and weights of its network, stored flat in a fixed
//! order; `neural_network` holds the networks and that order. After a fixed
//! number of steps a genetic algorithm breeds the next generation from the
//! animals that ate most; `genetic_algorithm` holds its driver, and
//! `select`, `crossover` and `mutation` the strategies it is made of.
//! `simulation` and `world` keep the books of the world from step to step.
//!
//! Real numbers are held as bit patterns (`scalar`). The crate stores,
//! orders and bounds them, and leaves arithmetic to the caller: where a
//! function needs a sum, a distance or a random number, it takes a function
//! that gives it, and says in its contract what it does with whatever that
//! function returns. `physics` bundles the functions that a step of the
//! simulation needs.

pub mod chromosome;
pub mod crossover;
pub mod genetic_algorithm;
pub mod individual;
pub mod mutation;
pub mod neural_network;
pub mod physics;
pub mod random;
pub mod scalar;
pub mod select;
pub mod simulation;
pub mod world;
