//! Plans that span several turns.
use vstd::prelude::*;
use crate::hlt::position::Position;

verus! {

/// A plan that spans several turns.
#[derive(Clone, Copy, Debug, PartialEq, Eq, Structural)]
pub enum ComplexAction {
    /// The action must be calculated.
    Undefined,
    /// Only move.
    Navigate(Position),
    /// Collect on the way.
    NavigateCollect(Position),
}

} // verus!
