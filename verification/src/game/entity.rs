//! Entity kinds used by game integration utilities.
use vstd::prelude::*;

verus! {

/// Entity types
#[derive(Debug, Clone, Copy, PartialEq, Eq, Structural)]
pub enum EntityType {
    /// Player entity
    Player,
    /// NPC entity
    NPC,
    /// Object entity
    Object,
    /// Environment entity
    Environment,
}

} // verus!
