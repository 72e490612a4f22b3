//! Worker MCP resource surface.

use vstd::prelude::*;

use super::super::dto::{resource_mime_types, resource_uris, ResourceDescriptor, ResourceTemplateDescriptor};
use super::{json_resource, methodology_resource};
use crate::methodology::MethodologyRole;

verus! {

/// The concrete worker resources.
pub fn descriptors() -> (r: Vec<ResourceDescriptor>)
    ensures
        resource_uris(r@) == seq![
            "multorum://worker/methodology"@,
            "multorum://worker/contract"@,
            "multorum://worker/inbox"@,
            "multorum://worker/status"@,
        ],
        resource_mime_types(r@) == seq![
            "text/markdown"@,
            "application/json"@,
            "application/json"@,
            "application/json"@,
        ],
{
    let mut r: Vec<ResourceDescriptor> = Vec::new();
    r.push(methodology_resource(
        MethodologyRole::Worker,
        "High-level worker operating methodology shipped with Multorum.",
    ));
    r.push(json_resource(
        "multorum://worker/contract",
        "Immutable worker contract for the active perspective.",
    ));
    r.push(json_resource("multorum://worker/inbox", "Inbox mailbox listing for the active worker."));
    r.push(json_resource("multorum://worker/status", "Projected worker lifecycle status."));
    assert(resource_uris(r@) =~= seq![
        "multorum://worker/methodology"@,
        "multorum://worker/contract"@,
        "multorum://worker/inbox"@,
        "multorum://worker/status"@,
    ]);
    assert(resource_mime_types(r@) =~= seq![
        "text/markdown"@,
        "application/json"@,
        "application/json"@,
        "application/json"@,
    ]);
    r
}

/// The parameterized worker resources: none.
pub fn templates() -> (r: Vec<ResourceTemplateDescriptor>)
    ensures
        r@.len() == 0,
{
    Vec::new()
}

} // verus!
