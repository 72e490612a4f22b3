//! MCP server operating modes.

use vstd::prelude::*;

use crate::runtime::worker_id::WorkerId;

verus! {

/// Which side of the orchestrator-worker boundary a server serves.
#[derive(Debug, Clone, PartialEq, Eq)]
pub enum McpMode {
    /// Main-workspace orchestrator server.
    Orchestrator,
    /// Worker-local server scoped to one worker.
    Worker { worker_id: WorkerId },
}

} // verus!
