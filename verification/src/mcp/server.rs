//! The assembled MCP surface of one server mode.

use vstd::prelude::*;

use super::dto::{resource_uris, tool_names, ResourceDescriptor, ToolDescriptor};
use super::mode::McpMode;
use super::resource;
use super::tool;
use crate::runtime::worker_id::WorkerId;

verus! {

/// The tools and resources registered for one server mode.
#[derive(Debug, Clone, PartialEq, Eq)]
pub struct McpServer {
    /// Server mode.
    pub mode: McpMode,
    /// Registered tools.
    pub tools: Vec<ToolDescriptor>,
    /// Registered resources.
    pub resources: Vec<ResourceDescriptor>,
}

impl McpServer {
    /// The orchestrator surface.
    pub fn orchestrator() -> (s: Self)
        ensures
            s.mode == McpMode::Orchestrator,
            tool_names(s.tools@) == tool::orchestrator::orchestrator_tool_names(),
            resource_uris(s.resources@).len() == 4,
    {
        McpServer {
            mode: McpMode::Orchestrator,
            tools: tool::orchestrator::descriptors(),
            resources: resource::orchestrator::descriptors(),
        }
    }

    /// The worker surface for one worker.
    pub fn worker(worker_id: WorkerId) -> (s: Self)
        ensures
            s.mode == (McpMode::Worker { worker_id }),
            tool_names(s.tools@) == tool::worker::worker_tool_names(),
            resource_uris(s.resources@).len() == 4,
    {
        McpServer {
            mode: McpMode::Worker { worker_id },
            tools: tool::worker::descriptors(),
            resources: resource::worker::descriptors(),
        }
    }
}

} // verus!
