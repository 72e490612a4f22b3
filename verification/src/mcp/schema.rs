//! The JSON Schema of a tool's arguments, as plain values: one property
//! per input with its JSON type, the required inputs, and no other
//! properties allowed.

use vstd::prelude::*;

use super::dto::{ToolInputDescriptor, ToolInputType};

verus! {

/// One property of a tool's argument schema.
#[derive(Debug, Clone, Copy, PartialEq, Eq)]
pub struct SchemaProperty {
    /// The argument name.
    pub name: &'static str,
    /// The argument description.
    pub description: &'static str,
    /// The JSON Schema `type`.
    pub json_type: &'static str,
    /// The JSON Schema `type` of array items, for arrays.
    pub items: Option<&'static str>,
}

/// The argument schema of one tool: an object with these properties.
#[derive(Debug, Clone, PartialEq, Eq)]
pub struct InputSchema {
    /// The properties, in input order.
    pub properties: Vec<SchemaProperty>,
    /// The names of the required properties, in input order.
    pub required: Vec<&'static str>,
    /// Whether properties other than the listed ones are allowed.
    pub additional_properties: bool,
}

/// The JSON Schema `type` of an input type.
pub open spec fn json_type_of(t: ToolInputType) -> Seq<char> {
    match t {
        ToolInputType::String => "string"@,
        ToolInputType::Integer => "integer"@,
        ToolInputType::Boolean => "boolean"@,
        ToolInputType::StringList => "array"@,
    }
}

/// The schema property of one input.
pub open spec fn property_of(i: ToolInputDescriptor, p: SchemaProperty) -> bool {
    &&& p.name == i.name
    &&& p.description == i.description
    &&& p.json_type@ == json_type_of(i.kind)
    &&& match i.kind {
        ToolInputType::StringList => p.items matches Some(t) && t@ == "string"@,
        _ => p.items is None,
    }
}

/// The property of one input.
pub fn schema_property(i: &ToolInputDescriptor) -> (p: SchemaProperty)
    ensures
        property_of(*i, p),
{
    let (json_type, items) = match i.kind {
        ToolInputType::String => ("string", None),
        ToolInputType::Integer => ("integer", None),
        ToolInputType::Boolean => ("boolean", None),
        ToolInputType::StringList => ("array", Some("string")),
    };
    SchemaProperty { name: i.name, description: i.description, json_type, items }
}

/// The names of the required inputs, in order.
pub open spec fn required_names(inputs: Seq<ToolInputDescriptor>) -> Seq<&'static str> {
    inputs.filter(|i: ToolInputDescriptor| i.required).map_values(|i: ToolInputDescriptor| i.name)
}

/// The argument schema of a tool with the inputs `inputs`.
pub fn input_schema(inputs: &Vec<ToolInputDescriptor>) -> (s: InputSchema)
    ensures
        s.properties.len() == inputs.len(),
        forall|k: int| 0 <= k < inputs.len() ==> property_of(inputs@[k], #[trigger] s.properties@[k]),
        s.required@ == required_names(inputs@),
        !s.additional_properties,
{
    let ghost req = |i: ToolInputDescriptor| i.required;
    let mut properties: Vec<SchemaProperty> = Vec::new();
    let mut required: Vec<&'static str> = Vec::new();
    let mut k: usize = 0;
    while k < inputs.len()
        invariant
            k <= inputs.len(),
            req == (|i: ToolInputDescriptor| i.required),
            properties.len() == k,
            forall|j: int| 0 <= j < k ==> property_of(inputs@[j], #[trigger] properties@[j]),
            required@ == inputs@.take(k as int).filter(req).map_values(|i: ToolInputDescriptor| i.name),
        decreases inputs.len() - k,
    {
        let input = &inputs[k];
        properties.push(schema_property(input));
        proof {
            crate::runtime::group::lemma_filter_take_push(inputs@, req, k as int);
        }
        if input.required {
            required.push(input.name);
        }
        assert(required@ =~= inputs@.take(k + 1).filter(req).map_values(|i: ToolInputDescriptor| i.name));
        k = k + 1;
    }
    assert(inputs@.take(inputs.len() as int) =~= inputs@);
    InputSchema { properties, required, additional_properties: false }
}

} // verus!
