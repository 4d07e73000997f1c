//! Sub-agents of an agent.

use vstd::prelude::*;

verus! {

/// Handle for a running sub-agent.
#[derive(Debug)]
pub struct SubagentHandle {
    pub task_id: String,
    pub status: SubagentStatus,
}

/// What a sub-agent is doing.
#[derive(Debug)]
pub enum SubagentStatus {
    Running,
    Completed(String),
    Failed(String),
}

/// The sub-agents that are running.
pub open spec fn running(registry: Map<Seq<char>, SubagentHandle>) -> Set<Seq<char>> {
    registry.dom().filter(|id: Seq<char>| registry[id].status is Running)
}

/// Every registered sub-agent is running.
pub open spec fn all_running(registry: Map<Seq<char>, SubagentHandle>) -> bool {
    forall|id: Seq<char>|
        #[trigger] registry.contains_key(id) ==> registry[id].status is Running
}

/// A sub-agent counts as running exactly if it is registered and its status says
/// so.
pub proof fn law_running_ones_are_registered(
    registry: Map<Seq<char>, SubagentHandle>,
    id: Seq<char>,
)
    ensures
        running(registry).contains(id) <==> registry.contains_key(id) && registry[id].status
            is Running,
        all_running(registry) && registry.contains_key(id) ==> registry[id].status is Running,
{
}

} // verus!
