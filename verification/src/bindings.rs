//! Data exchanged with game engine bindings.
use vstd::prelude::*;

verus! {

/// Unity-specific agent state
#[derive(Debug, Clone)]
pub struct UnityAgentState {
    /// Agent ID
    pub id: String,
    /// Agent name
    pub name: String,
    /// Current state
    pub state: String,
    /// Last response
    pub last_response: Option<String>,
    /// Available behaviors
    pub behaviors: Vec<String>,
}

} // verus!
