use vstd::prelude::*;

verus! {

/// Failures that the game model reports instead of aborting.
#[derive(Clone, Copy, Debug, PartialEq, Eq, Structural)]
pub enum GameError {
    /// A card was drawn from a deck that holds none.
    EmptyContainer,
    /// A debit asked for more of a resource than the stash holds.
    InsufficientResource,
    /// A card was found in no container or in two of them.
    InvariantViolation,
}

} // verus!
