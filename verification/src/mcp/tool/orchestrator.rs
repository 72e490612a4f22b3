//! Orchestrator MCP tool surface.

use vstd::prelude::*;

use super::super::dto::{input_signatures, tool_inputs, tool_names, ToolDescriptor, ToolInputDescriptor, ToolInputType};
use super::{
    optional_boolean_input, optional_integer_input, optional_string_input,
    optional_string_list_input, required_integer_input, required_string_input,
    required_string_list_input,
};

verus! {

/// The orchestrator tool names, in order.
pub open spec fn orchestrator_tool_names() -> Seq<Seq<char>> {
    seq![
        "set_working_directory"@,
        "rulebook_init"@,
        "list_perspectives"@,
        "validate_perspectives"@,
        "forward_perspective"@,
        "list_workers"@,
        "get_worker"@,
        "read_worker_outbox"@,
        "ack_worker_outbox_message"@,
        "create_worker"@,
        "resolve_worker"@,
        "hint_worker"@,
        "revise_worker"@,
        "discard_worker"@,
        "delete_worker"@,
        "merge_worker"@,
        "get_status"@,
    ]
}

/// The inputs of the follow-up bundle tools (resolve, hint, revise).
pub open spec fn reply_bundle_signatures() -> Seq<(Seq<char>, bool, ToolInputType)> {
    seq![
        ("worker"@, true, ToolInputType::String),
        ("reply_to"@, false, ToolInputType::Integer),
        ("body_text"@, false, ToolInputType::String),
        ("body_path"@, false, ToolInputType::String),
        ("artifacts"@, false, ToolInputType::StringList),
    ]
}

/// Inputs of the follow-up bundle tools (resolve, hint, revise).
fn reply_bundle_inputs() -> (v: Vec<ToolInputDescriptor>)
    ensures
        input_signatures(v@) == reply_bundle_signatures(),
{
    let mut v: Vec<ToolInputDescriptor> = Vec::new();
    v.push(required_string_input("worker", "Runtime worker identity that owns the inbox."));
    v.push(optional_integer_input("reply_to", "Optional mailbox sequence number answered by this bundle."));
    v.push(optional_string_input("body_text", "Optional inline Markdown content written into the bundle body."));
    v.push(optional_string_input("body_path", "Optional Markdown file to move into the bundle body."));
    v.push(optional_string_list_input("artifacts", "Optional files to move into the bundle artifacts directory."));
    assert(input_signatures(v@) =~= reply_bundle_signatures());
    v
}

/// Inputs of the tools that act on one finalized worker.
fn finalized_worker_inputs() -> (v: Vec<ToolInputDescriptor>)
    ensures
        input_signatures(v@) == seq![("worker"@, true, ToolInputType::String)],
{
    let mut v: Vec<ToolInputDescriptor> = Vec::new();
    v.push(required_string_input("worker", "Runtime worker identity to act on."));
    assert(input_signatures(v@) =~= seq![("worker"@, true, ToolInputType::String)]);
    v
}

/// The inputs of each orchestrator tool, in order: name, whether
/// required, and type.
pub open spec fn orchestrator_tool_inputs() -> Seq<Seq<(Seq<char>, bool, ToolInputType)>> {
    seq![
        seq![("path"@, true, ToolInputType::String)],
        seq![],
        seq![],
        seq![("perspectives"@, true, ToolInputType::StringList), ("no_live"@, false, ToolInputType::Boolean)],
        seq![("perspective"@, true, ToolInputType::String)],
        seq![],
        seq![("worker"@, true, ToolInputType::String)],
        seq![("worker"@, true, ToolInputType::String), ("after"@, false, ToolInputType::Integer)],
        seq![("worker"@, true, ToolInputType::String), ("sequence"@, true, ToolInputType::Integer)],
        seq![
            ("perspective"@, true, ToolInputType::String),
            ("worker"@, false, ToolInputType::String),
            ("overwriting_worktree"@, false, ToolInputType::Boolean),
            ("body_text"@, false, ToolInputType::String),
            ("body_path"@, false, ToolInputType::String),
            ("artifacts"@, false, ToolInputType::StringList),
        ],
        reply_bundle_signatures(),
        reply_bundle_signatures(),
        reply_bundle_signatures(),
        seq![("worker"@, true, ToolInputType::String)],
        seq![("worker"@, true, ToolInputType::String)],
        seq![
            ("worker"@, true, ToolInputType::String),
            ("skip_checks"@, false, ToolInputType::StringList),
            ("body_text"@, false, ToolInputType::String),
            ("body_path"@, false, ToolInputType::String),
            ("artifacts"@, false, ToolInputType::StringList),
        ],
        seq![],
    ]
}

/// The orchestrator MCP tool descriptors.
pub fn descriptors() -> (r: Vec<ToolDescriptor>)
    ensures
        tool_names(r@) == orchestrator_tool_names(),
        tool_inputs(r@) == orchestrator_tool_inputs(),
{
    let mut r: Vec<ToolDescriptor> = Vec::new();
    let mut inputs: Vec<ToolInputDescriptor> = Vec::new();
    inputs.push(required_string_input("path", "Absolute path to the canonical workspace root."));
    r.push(ToolDescriptor {
        name: "set_working_directory",
        description: "Rebind the orchestrator server to a different workspace root directory. The server defaults to the process working directory at startup.",
        inputs,
    });
    r.push(ToolDescriptor {
        name: "rulebook_init",
        description: "Initialize .multorum with the default committed rulebook artifacts.",
        inputs: Vec::new(),
    });
    r.push(ToolDescriptor {
        name: "list_perspectives",
        description: "List compiled perspectives from the current rulebook.",
        inputs: Vec::new(),
    });
    let mut inputs: Vec<ToolInputDescriptor> = Vec::new();
    inputs.push(required_string_list_input("perspectives", "Perspective names to validate for conflict-freedom."));
    inputs.push(optional_boolean_input("no_live", "Skip checking against active bidding groups."));
    r.push(ToolDescriptor {
        name: "validate_perspectives",
        description: "Validate a set of perspectives for conflict-freedom against each other and active bidding groups.",
        inputs,
    });
    let mut inputs: Vec<ToolInputDescriptor> = Vec::new();
    inputs.push(required_string_input("perspective", "Perspective whose blocked bidding group should move to HEAD."));
    r.push(ToolDescriptor {
        name: "forward_perspective",
        description: "Move one blocked bidding group to HEAD.",
        inputs,
    });
    r.push(ToolDescriptor {
        name: "list_workers",
        description: "List active workers in the current runtime.",
        inputs: Vec::new(),
    });
    let mut inputs: Vec<ToolInputDescriptor> = Vec::new();
    inputs.push(required_string_input("worker", "Runtime worker identity to inspect."));
    r.push(ToolDescriptor {
        name: "get_worker",
        description: "Load one worker detail view.",
        inputs,
    });
    let mut inputs: Vec<ToolInputDescriptor> = Vec::new();
    inputs.push(required_string_input("worker", "Runtime worker identity whose outbox should be read."));
    inputs.push(optional_integer_input("after", "Optional sequence number; only outbox bundles after it are returned."));
    r.push(ToolDescriptor {
        name: "read_worker_outbox",
        description: "List one worker outbox after an optional sequence number.",
        inputs,
    });
    let mut inputs: Vec<ToolInputDescriptor> = Vec::new();
    inputs.push(required_string_input("worker", "Runtime worker identity whose outbox owns the message."));
    inputs.push(required_integer_input("sequence", "Outbox sequence number to acknowledge."));
    r.push(ToolDescriptor {
        name: "ack_worker_outbox_message",
        description: "Acknowledge a consumed worker outbox bundle.",
        inputs,
    });
    let mut inputs: Vec<ToolInputDescriptor> = Vec::new();
    inputs.push(required_string_input("perspective", "Compiled perspective to instantiate."));
    inputs.push(optional_string_input("worker", "Optional orchestrator-selected runtime worker identity. When omitted, Multorum allocates a default perspective-based identity."));
    inputs.push(optional_boolean_input("overwriting_worktree", "Optional flag to replace an existing finalized workspace for the same explicit worker."));
    inputs.push(optional_string_input("body_text", "Optional inline Markdown content written into the created task bundle body."));
    inputs.push(optional_string_input("body_path", "Optional Markdown file to move into the created task bundle body."));
    inputs.push(optional_string_list_input("artifacts", "Optional files to move into the created task bundle artifacts directory."));
    r.push(ToolDescriptor {
        name: "create_worker",
        description: "Create a worker workspace and create its initial task bundle; path-backed payload files are moved into .multorum storage.",
        inputs,
    });
    r.push(ToolDescriptor {
        name: "resolve_worker",
        description: "Publish a resolve bundle to a blocked worker inbox; path-backed payload files are moved into .multorum storage.",
        inputs: reply_bundle_inputs(),
    });
    r.push(ToolDescriptor {
        name: "hint_worker",
        description: "Publish an advisory hint bundle to an active worker inbox; path-backed payload files are moved into .multorum storage.",
        inputs: reply_bundle_inputs(),
    });
    r.push(ToolDescriptor {
        name: "revise_worker",
        description: "Publish a revise bundle to a committed worker inbox; path-backed payload files are moved into .multorum storage.",
        inputs: reply_bundle_inputs(),
    });
    r.push(ToolDescriptor {
        name: "discard_worker",
        description: "Finalize a worker without integration while preserving its workspace.",
        inputs: finalized_worker_inputs(),
    });
    r.push(ToolDescriptor {
        name: "delete_worker",
        description: "Delete one finalized worker workspace.",
        inputs: finalized_worker_inputs(),
    });
    let mut inputs: Vec<ToolInputDescriptor> = Vec::new();
    inputs.push(required_string_input("worker", "Runtime worker identity to merge."));
    inputs.push(optional_string_list_input("skip_checks", "Optional project-defined checks to skip based on trusted worker evidence."));
    inputs.push(optional_string_input("body_text", "Optional inline Markdown content written into the audit rationale body. Prefer self-contained findings instead of references to worker outbox paths."));
    inputs.push(optional_string_input("body_path", "Optional Markdown file to move into the audit rationale body. Prefer self-contained findings instead of references to worker outbox paths."));
    inputs.push(optional_string_list_input("artifacts", "Optional files to move into the audit rationale artifacts directory."));
    r.push(ToolDescriptor {
        name: "merge_worker",
        description: "Run the pre-merge pipeline and merge a worker submission. Audit rationale should be self-contained because worker runtime state may be deleted after merge confirmation.",
        inputs,
    });
    r.push(ToolDescriptor {
        name: "get_status",
        description: "Return the full orchestrator runtime snapshot.",
        inputs: Vec::new(),
    });
    assert(tool_names(r@) =~= orchestrator_tool_names());
    assert(tool_inputs(r@) =~~= orchestrator_tool_inputs());
    r
}

} // verus!
