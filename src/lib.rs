//! Speculative multi-turn simulation for a turn-based resource-collection
//! game on a toroidal grid.
//!
//! - `hlt`: positions, directions, ships, commands and the engine's report.
//! - `simulator`: the layered diffs, turn states, the memory kept across real
//!   turns, and the simulator that explores and commits future turns.
//! - `bot`: the planner built on the simulator and the per-turn collision
//!   avoidance.
//! - `extended_map`, `random_and_back`, `move_random_and_back`: reservation
//!   tables, the bot and spawning of the simpler random-walk player.
//! - `fixed_pattern_bot`: a ship sent round a fixed loop.
//! - `maps`, `chance`: hash tables keyed by position, and the random draws.
pub mod bot;
pub mod chance;
pub mod complex_action;
pub mod extended_map;
pub mod fixed_pattern_bot;
pub mod hlt;
pub mod maps;
pub mod move_random_and_back;
pub mod random_and_back;
pub mod simulator;
