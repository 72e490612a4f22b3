//! Orchestrator MCP resource surface.

use vstd::prelude::*;

use super::super::dto::{resource_mime_types, resource_uris, ResourceDescriptor, ResourceTemplateDescriptor};
use super::{json_resource, json_template, methodology_resource};
use crate::methodology::MethodologyRole;

verus! {

/// The concrete orchestrator resources.
pub fn descriptors() -> (r: Vec<ResourceDescriptor>)
    ensures
        resource_uris(r@) == seq![
            "multorum://orchestrator/methodology"@,
            "multorum://orchestrator/status"@,
            "multorum://orchestrator/perspectives"@,
            "multorum://orchestrator/workers"@,
        ],
        resource_mime_types(r@) == seq![
            "text/markdown"@,
            "application/json"@,
            "application/json"@,
            "application/json"@,
        ],
{
    let mut r: Vec<ResourceDescriptor> = Vec::new();
    r.push(methodology_resource(
        MethodologyRole::Orchestrator,
        "High-level orchestrator operating methodology shipped with Multorum.",
    ));
    r.push(json_resource(
        "multorum://orchestrator/status",
        "Projected orchestrator snapshot including active perspectives and workers.",
    ));
    r.push(json_resource(
        "multorum://orchestrator/perspectives",
        "Compiled perspective summaries from the current rulebook.",
    ));
    r.push(json_resource(
        "multorum://orchestrator/workers",
        "Worker summary listing for the current runtime.",
    ));
    assert(resource_uris(r@) =~= seq![
        "multorum://orchestrator/methodology"@,
        "multorum://orchestrator/status"@,
        "multorum://orchestrator/perspectives"@,
        "multorum://orchestrator/workers"@,
    ]);
    assert(resource_mime_types(r@) =~= seq![
        "text/markdown"@,
        "application/json"@,
        "application/json"@,
        "application/json"@,
    ]);
    r
}

/// The parameterized orchestrator resources.
pub fn templates() -> (r: Vec<ResourceTemplateDescriptor>)
    ensures
        r@.map_values(|t: ResourceTemplateDescriptor| t.uri_template@) == seq![
            "multorum://orchestrator/workers/{worker}"@,
            "multorum://orchestrator/workers/{worker}/outbox"@,
        ],
{
    let mut r: Vec<ResourceTemplateDescriptor> = Vec::new();
    r.push(json_template(
        "multorum://orchestrator/workers/{worker}",
        "Detailed orchestrator-side view of one worker.",
    ));
    r.push(json_template(
        "multorum://orchestrator/workers/{worker}/outbox",
        "Outbox mailbox listing for one worker from the orchestrator view.",
    ));
    assert(r@.map_values(|t: ResourceTemplateDescriptor| t.uri_template@) =~= seq![
        "multorum://orchestrator/workers/{worker}"@,
        "multorum://orchestrator/workers/{worker}/outbox"@,
    ]);
    r
}

} // verus!
