//! MCP resource descriptors for the two server surfaces.

pub mod orchestrator;
pub mod route;
pub mod worker;

use vstd::prelude::*;

use super::dto::{ResourceDescriptor, ResourceTemplateDescriptor};
use crate::methodology::{resource_uri_text, MethodologyDocument, MethodologyRole};

verus! {

/// The methodology resource of one role.
pub fn methodology_resource(role: MethodologyRole, description: &'static str) -> (d: ResourceDescriptor)
    ensures
        d.uri@ == resource_uri_text(role),
        d.description == description,
        d.mime_type@ == "text/markdown"@,
{
    ResourceDescriptor {
        uri: MethodologyDocument::new(role).resource_uri(),
        description,
        mime_type: "text/markdown",
    }
}

/// One JSON resource.
pub fn json_resource(uri: &'static str, description: &'static str) -> (d: ResourceDescriptor)
    ensures
        d.uri == uri,
        d.description == description,
        d.mime_type@ == "application/json"@,
{
    ResourceDescriptor { uri, description, mime_type: "application/json" }
}

/// One JSON resource template.
pub fn json_template(uri_template: &'static str, description: &'static str) -> (d: ResourceTemplateDescriptor)
    ensures
        d.uri_template == uri_template,
        d.description == description,
        d.mime_type@ == "application/json"@,
{
    ResourceTemplateDescriptor { uri_template, description, mime_type: "application/json" }
}

} // verus!
