//! An evolving population of simple agents in a bounded 2D world.
//!
//! Each agent carries a feed-forward neural network as its control policy; a
//! genetic algorithm improves those policies across generations. All numeric
//! state is held in an exact fixed-point scalar model (see `fx`), so every
//! computation of the library is deterministic and fully specified.

pub mod animal;
pub mod animal_individual;
pub mod brain;
pub mod chromosome;
pub mod crossover;
pub mod eye;
pub mod food;
pub mod fx;
pub mod genetic;
pub mod individual;
pub mod layer;
pub mod mutation;
pub mod network;
pub mod neuron;
pub mod rng;
pub mod selection;
pub mod simulation;
pub mod statistics;
pub mod trig;
pub mod world;
