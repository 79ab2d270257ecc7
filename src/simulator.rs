//! The layered, speculative simulation of future turns.
use vstd::prelude::*;

pub mod action;
pub mod memory;
pub mod simulator;
pub mod state_difference;
pub mod turn_state;

verus! {

/// An amount of the collectible resource.
pub type Halite = u32;

} // verus!
