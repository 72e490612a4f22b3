//! Transport-neutral descriptors for MCP tools and resources.

use vstd::prelude::*;

verus! {

/// The JSON type a tool input accepts.
#[derive(Debug, Clone, Copy, PartialEq, Eq, Structural)]
pub enum ToolInputType {
    /// A JSON string.
    String,
    /// A non-negative integer that fits in 64 bits.
    Integer,
    /// A JSON boolean.
    Boolean,
    /// A JSON array of strings.
    StringList,
}

/// Description of one tool input field.
#[derive(Debug, Clone, Copy, PartialEq, Eq)]
pub struct ToolInputDescriptor {
    /// Field name.
    pub name: &'static str,
    /// Summary of the field's meaning.
    pub description: &'static str,
    /// Whether the caller must supply the field.
    pub required: bool,
    /// The accepted JSON type.
    pub kind: ToolInputType,
}

impl ToolInputDescriptor {
    /// A required field.
    pub fn required(name: &'static str, description: &'static str, kind: ToolInputType) -> (d: Self)
        ensures
            d.name == name,
            d.description == description,
            d.required,
            d.kind == kind,
    {
        ToolInputDescriptor { name, description, required: true, kind }
    }

    /// An optional field.
    pub fn optional(name: &'static str, description: &'static str, kind: ToolInputType) -> (d: Self)
        ensures
            d.name == name,
            d.description == description,
            !d.required,
            d.kind == kind,
    {
        ToolInputDescriptor { name, description, required: false, kind }
    }
}

/// Description of one exposed tool.
#[derive(Debug, Clone, PartialEq, Eq)]
pub struct ToolDescriptor {
    /// Protocol-visible tool name.
    pub name: &'static str,
    /// Summary of the tool's purpose.
    pub description: &'static str,
    /// Input fields, in schema order.
    pub inputs: Vec<ToolInputDescriptor>,
}

/// Description of one exposed resource.
#[derive(Debug, Clone, Copy, PartialEq, Eq)]
pub struct ResourceDescriptor {
    /// Resource URI.
    pub uri: &'static str,
    /// Summary of the resource contents.
    pub description: &'static str,
    /// MIME type of the contents.
    pub mime_type: &'static str,
}

/// Description of one parameterized resource.
#[derive(Debug, Clone, Copy, PartialEq, Eq)]
pub struct ResourceTemplateDescriptor {
    /// URI template.
    pub uri_template: &'static str,
    /// Summary of the resource contents.
    pub description: &'static str,
    /// MIME type of the contents.
    pub mime_type: &'static str,
}

/// The names of a list of tools.
pub open spec fn tool_names(ts: Seq<ToolDescriptor>) -> Seq<Seq<char>> {
    ts.map_values(|t: ToolDescriptor| t.name@)
}

/// The name, presence requirement and type of one input.
pub open spec fn input_signature(i: ToolInputDescriptor) -> (Seq<char>, bool, ToolInputType) {
    (i.name@, i.required, i.kind)
}

/// The input signatures of a list of inputs, in order.
pub open spec fn input_signatures(is: Seq<ToolInputDescriptor>) -> Seq<(Seq<char>, bool, ToolInputType)> {
    is.map_values(|i: ToolInputDescriptor| input_signature(i))
}

/// The input signatures of each tool of a list, in order.
pub open spec fn tool_inputs(ts: Seq<ToolDescriptor>) -> Seq<Seq<(Seq<char>, bool, ToolInputType)>> {
    ts.map_values(|t: ToolDescriptor| input_signatures(t.inputs@))
}

/// The MIME types of a list of resources.
pub open spec fn resource_mime_types(rs: Seq<ResourceDescriptor>) -> Seq<Seq<char>> {
    rs.map_values(|r: ResourceDescriptor| r.mime_type@)
}

/// The URIs of a list of resources.
pub open spec fn resource_uris(rs: Seq<ResourceDescriptor>) -> Seq<Seq<char>> {
    rs.map_values(|r: ResourceDescriptor| r.uri@)
}

} // verus!
