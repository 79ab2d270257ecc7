//! Planning aids around the simulation.
pub mod collision_avoidance;
pub mod reservations;
pub mod path_finder;
pub mod random_path_generator;
pub mod simulating_bot;
