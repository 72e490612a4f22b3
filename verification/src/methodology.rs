//! Operating methodology for the two Multorum runtime roles.
//!
//! `multorum util methodology <role>` prints the same Markdown that the
//! MCP servers expose as role-specific `multorum://.../methodology`
//! resources. The documents are advisory: the rulebook, mailbox state,
//! and the command and tool contracts remain authoritative.

use vstd::prelude::*;

verus! {

/// Runtime role that owns one methodology document.
#[derive(Debug, Clone, Copy, PartialEq, Eq, Structural)]
pub enum MethodologyRole {
    /// Orchestrator guidance for the canonical workspace.
    Orchestrator,
    /// Worker guidance for one managed worktree.
    Worker,
}

/// The orchestrator's methodology.
pub const METHODOLOGY_ORCHESTRATOR: &'static str = "# Orchestrator methodology

1. Describe the project's files in the rulebook: file sets, then perspectives
   that each read one expression and write another.
2. Validate the perspectives you intend to run side by side; live bidding
   groups must never write a common file or write what another reads.
3. Create one worker per task with `create_worker`, seeding its inbox with a
   self-contained task bundle.
4. Read worker outboxes. Answer reports with `resolve_worker`, send context
   with `hint_worker`, request changes to a commit with `revise_worker`.
5. Merge committed workers with `merge_worker`; the write-set scope check
   always runs, and only checks marked skippable may be skipped.
6. Discard work you will not integrate, and delete finalized workspaces when
   they are no longer needed.
";

/// The worker's methodology.
pub const METHODOLOGY_WORKER: &'static str = "# Worker methodology

1. Read your contract: the base commit and the read and write sets. Change
   only files in your write set.
2. Read and acknowledge your inbox before starting; a task, resolve or
   revise bundle makes you active.
3. When blocked, publish a report with your current head commit and wait for
   the orchestrator's answer.
4. When done, commit in your worktree and publish the commit with
   `send_commit`; you are then frozen until the orchestrator merges, revises
   or discards your work.
";

/// High-level methodology document for one runtime role.
#[derive(Debug, Clone, Copy, PartialEq, Eq, Structural)]
pub struct MethodologyDocument {
    role: MethodologyRole,
}

/// The CLI selector of a role.
pub open spec fn cli_name_text(r: MethodologyRole) -> Seq<char> {
    match r {
        MethodologyRole::Orchestrator => "orchestrator"@,
        MethodologyRole::Worker => "worker"@,
    }
}

/// The MCP resource URI of a role's methodology.
pub open spec fn resource_uri_text(r: MethodologyRole) -> Seq<char> {
    match r {
        MethodologyRole::Orchestrator => "multorum://orchestrator/methodology"@,
        MethodologyRole::Worker => "multorum://worker/methodology"@,
    }
}

/// The Markdown body shipped for a role.
pub open spec fn markdown_text(r: MethodologyRole) -> Seq<char> {
    match r {
        MethodologyRole::Orchestrator => METHODOLOGY_ORCHESTRATOR@,
        MethodologyRole::Worker => METHODOLOGY_WORKER@,
    }
}

impl MethodologyDocument {
    /// The role that owns this document.
    pub closed spec fn spec_role(self) -> MethodologyRole {
        self.role
    }

    /// The methodology document for one runtime role.
    pub fn new(role: MethodologyRole) -> (d: Self)
        ensures
            d.spec_role() == role,
    {
        MethodologyDocument { role }
    }

    /// The role that owns this document.
    pub fn role(self) -> (r: MethodologyRole)
        ensures
            r == self.spec_role(),
    {
        self.role
    }

    /// The stable CLI selector for this document's role.
    pub fn cli_name(self) -> (s: &'static str)
        ensures
            s@ == cli_name_text(self.spec_role()),
    {
        match self.role {
            MethodologyRole::Orchestrator => "orchestrator",
            MethodologyRole::Worker => "worker",
        }
    }

    /// The role-specific MCP resource URI for this document.
    pub fn resource_uri(self) -> (s: &'static str)
        ensures
            s@ == resource_uri_text(self.spec_role()),
    {
        match self.role {
            MethodologyRole::Orchestrator => "multorum://orchestrator/methodology",
            MethodologyRole::Worker => "multorum://worker/methodology",
        }
    }

    /// The Markdown body shipped for this role.
    pub fn markdown(self) -> (s: &'static str)
        ensures
            s@ == markdown_text(self.spec_role()),
    {
        match self.role {
            MethodologyRole::Orchestrator => METHODOLOGY_ORCHESTRATOR,
            MethodologyRole::Worker => METHODOLOGY_WORKER,
        }
    }
}

} // verus!
