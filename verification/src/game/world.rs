//! Entity kinds used by the agent-loop utilities.
use vstd::prelude::*;

verus! {

/// Game entity type
#[derive(Debug, Clone, Copy, PartialEq, Eq, Structural)]
pub enum EntityType {
    /// Player entity
    Player,
    /// NPC entity
    NPC,
    /// Item entity
    Item,
    /// Structure or building
    Structure,
    /// Trigger zone
    Trigger,
}

} // verus!
