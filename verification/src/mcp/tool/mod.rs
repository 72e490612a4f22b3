//! MCP tool descriptors for the two server surfaces.

pub mod orchestrator;
pub mod worker;

use vstd::prelude::*;

use super::dto::{ToolInputDescriptor, ToolInputType};

verus! {

/// A required string input.
pub fn required_string_input(name: &'static str, description: &'static str) -> (d: ToolInputDescriptor)
    ensures
        d == (ToolInputDescriptor { name, description, required: true, kind: ToolInputType::String }),
{
    ToolInputDescriptor::required(name, description, ToolInputType::String)
}

/// An optional string input.
pub fn optional_string_input(name: &'static str, description: &'static str) -> (d: ToolInputDescriptor)
    ensures
        d == (ToolInputDescriptor { name, description, required: false, kind: ToolInputType::String }),
{
    ToolInputDescriptor::optional(name, description, ToolInputType::String)
}

/// A required integer input.
pub fn required_integer_input(name: &'static str, description: &'static str) -> (d: ToolInputDescriptor)
    ensures
        d == (ToolInputDescriptor { name, description, required: true, kind: ToolInputType::Integer }),
{
    ToolInputDescriptor::required(name, description, ToolInputType::Integer)
}

/// An optional integer input.
pub fn optional_integer_input(name: &'static str, description: &'static str) -> (d: ToolInputDescriptor)
    ensures
        d == (ToolInputDescriptor { name, description, required: false, kind: ToolInputType::Integer }),
{
    ToolInputDescriptor::optional(name, description, ToolInputType::Integer)
}

/// An optional boolean input.
pub fn optional_boolean_input(name: &'static str, description: &'static str) -> (d: ToolInputDescriptor)
    ensures
        d == (ToolInputDescriptor { name, description, required: false, kind: ToolInputType::Boolean }),
{
    ToolInputDescriptor::optional(name, description, ToolInputType::Boolean)
}

/// A required string-list input.
pub fn required_string_list_input(name: &'static str, description: &'static str) -> (d: ToolInputDescriptor)
    ensures
        d == (ToolInputDescriptor {
            name,
            description,
            required: true,
            kind: ToolInputType::StringList,
        }),
{
    ToolInputDescriptor::required(name, description, ToolInputType::StringList)
}

/// An optional string-list input.
pub fn optional_string_list_input(name: &'static str, description: &'static str) -> (d: ToolInputDescriptor)
    ensures
        d == (ToolInputDescriptor {
            name,
            description,
            required: false,
            kind: ToolInputType::StringList,
        }),
{
    ToolInputDescriptor::optional(name, description, ToolInputType::StringList)
}

} // verus!
