//! What one phase of a cycle hands to the next.

use vstd::prelude::*;
use crate::components::{Entity, Position};

verus! {

/// `attacker` strikes `target`.
#[derive(Clone, Copy, Debug, PartialEq, Eq, Structural)]
pub struct AttackEvent {
    pub attacker: Entity,
    pub target: Entity,
}

/// `entity` has been cleared to step onto `position`.
#[derive(Clone, Copy, Debug, PartialEq, Eq, Structural)]
pub struct MoveEvent {
    pub entity: Entity,
    pub position: Position,
}

/// `collected_by` picks `item` up from the floor.
#[derive(Clone, Copy, Debug, PartialEq, Eq, Structural)]
pub struct PickupEvent {
    pub collected_by: Entity,
    pub item: Entity,
}

} // verus!
