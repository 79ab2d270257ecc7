//! Collision avoidance for the simpler random-walk planner.
pub mod extended_map;
pub mod ship_bot;
