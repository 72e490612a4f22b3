//! The MCP surfaces: tool and resource descriptors for the orchestrator
//! and worker servers, the argument checks applied before dispatch, and
//! the error codes reported to MCP clients.

pub mod args;
pub mod dto;
pub mod error;
pub mod mode;
pub mod resource;
pub mod schema;
pub mod server;
pub mod tool;
