//! A rules engine for turn-based character simulations.
//!
//! Characters carry named, bounded numeric attributes and boolean statuses.
//! Actions describe attribute and status changes addressed to an actor and a
//! target; modifier collections rewrite the magnitude of attribute changes in
//! two stages (the actor's outgoing set, then the receiver's incoming set)
//! before they are applied.

use vstd::prelude::*;

pub mod action;
pub mod arith;
pub mod character;
pub mod codec;
pub mod modifier;
pub mod output;
pub mod text;

verus! {

/// Failure while building an action from external, structured data.
///
/// Lookup misses during action resolution are deliberately not errors: they
/// are silent no-ops, so optional attributes never make resolution fail.
#[derive(Debug, Clone, Copy, PartialEq, Eq, Structural)]
pub enum Error {
    Undefined,
    ToDo,
}

} // verus!
