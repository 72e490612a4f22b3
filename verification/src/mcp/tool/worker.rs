//! Worker MCP tool surface.

use vstd::prelude::*;

use super::super::dto::{tool_inputs, tool_names, ToolDescriptor, ToolInputDescriptor, ToolInputType};
use super::{
    optional_integer_input, optional_string_input, optional_string_list_input,
    required_integer_input, required_string_input,
};

verus! {

/// The worker tool names, in order.
pub open spec fn worker_tool_names() -> Seq<Seq<char>> {
    seq![
        "set_working_directory"@,
        "get_contract"@,
        "read_inbox"@,
        "ack_inbox_message"@,
        "send_report"@,
        "send_commit"@,
        "get_status"@,
    ]
}

/// The inputs of each worker tool, in order: name, whether required,
/// and type.
pub open spec fn worker_tool_inputs() -> Seq<Seq<(Seq<char>, bool, ToolInputType)>> {
    seq![
        seq![("path"@, true, ToolInputType::String)],
        seq![],
        seq![("after"@, false, ToolInputType::Integer)],
        seq![("sequence"@, true, ToolInputType::Integer)],
        seq![
            ("head_commit"@, false, ToolInputType::String),
            ("reply_to"@, false, ToolInputType::Integer),
            ("body_text"@, false, ToolInputType::String),
            ("body_path"@, false, ToolInputType::String),
            ("artifacts"@, false, ToolInputType::StringList),
        ],
        seq![
            ("head_commit"@, true, ToolInputType::String),
            ("body_text"@, false, ToolInputType::String),
            ("body_path"@, false, ToolInputType::String),
            ("artifacts"@, false, ToolInputType::StringList),
        ],
        seq![],
    ]
}

/// The worker MCP tool descriptors.
pub fn descriptors() -> (r: Vec<ToolDescriptor>)
    ensures
        tool_names(r@) == worker_tool_names(),
        tool_inputs(r@) == worker_tool_inputs(),
{
    let mut r: Vec<ToolDescriptor> = Vec::new();
    let mut inputs: Vec<ToolInputDescriptor> = Vec::new();
    inputs.push(required_string_input("path", "Absolute path to the managed worker worktree root."));
    r.push(ToolDescriptor {
        name: "set_working_directory",
        description: "Rebind the worker server to a different worktree root directory. The server defaults to the process working directory at startup.",
        inputs,
    });
    r.push(ToolDescriptor {
        name: "get_contract",
        description: "Load the worker contract view.",
        inputs: Vec::new(),
    });
    let mut inputs: Vec<ToolInputDescriptor> = Vec::new();
    inputs.push(optional_integer_input("after", "Optional sequence number; only inbox bundles after it are returned."));
    r.push(ToolDescriptor {
        name: "read_inbox",
        description: "List inbox bundles after an optional sequence number.",
        inputs,
    });
    let mut inputs: Vec<ToolInputDescriptor> = Vec::new();
    inputs.push(required_integer_input("sequence", "Inbox sequence number to acknowledge."));
    r.push(ToolDescriptor {
        name: "ack_inbox_message",
        description: "Acknowledge a consumed inbox bundle.",
        inputs,
    });
    let mut inputs: Vec<ToolInputDescriptor> = Vec::new();
    inputs.push(optional_string_input("head_commit", "Optional git commit hash relevant to the blocker report."));
    inputs.push(optional_integer_input("reply_to", "Optional mailbox sequence number answered by this report."));
    inputs.push(optional_string_input("body_text", "Optional inline Markdown content written into the report body."));
    inputs.push(optional_string_input("body_path", "Optional Markdown file to move into the report body."));
    inputs.push(optional_string_list_input("artifacts", "Optional files to move into the report artifacts directory."));
    r.push(ToolDescriptor {
        name: "send_report",
        description: "Publish a worker blocker report bundle to the outbox; path-backed payload files are moved into .multorum storage.",
        inputs,
    });
    let mut inputs: Vec<ToolInputDescriptor> = Vec::new();
    inputs.push(required_string_input("head_commit", "Git commit hash submitted by the worker."));
    inputs.push(optional_string_input("body_text", "Optional inline Markdown content written into the commit bundle body."));
    inputs.push(optional_string_input("body_path", "Optional Markdown file to move into the commit bundle body."));
    inputs.push(optional_string_list_input("artifacts", "Optional files to move into the commit bundle artifacts directory."));
    r.push(ToolDescriptor {
        name: "send_commit",
        description: "Publish a completed worker submission bundle to the outbox; path-backed payload files are moved into .multorum storage.",
        inputs,
    });
    r.push(ToolDescriptor {
        name: "get_status",
        description: "Return the worker status projection.",
        inputs: Vec::new(),
    });
    assert(tool_names(r@) =~= worker_tool_names());
    assert(tool_inputs(r@) =~~= worker_tool_inputs());
    r
}

} // verus!
