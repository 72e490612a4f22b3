//! Checks on MCP tool arguments before dispatch: unknown tools and
//! fields are refused, required fields must be present, and every field
//! given must have its declared JSON type.

use vstd::prelude::*;
use vstd::string::*;

use super::dto::{ToolDescriptor, ToolInputDescriptor, ToolInputType};
use crate::perspective::error::perspective_name_error_text;
use crate::perspective::name::{perspective_name_result_spec, PerspectiveName};
use crate::runtime::mailbox::{Sequence, SequenceFilter};
use crate::runtime::worker_id::{worker_id_error_text, worker_id_result_spec, WorkerId};
use crate::text::text_eq;

verus! {

/// The JSON shape of one argument value.
#[derive(Debug, Clone, Copy, PartialEq, Eq, Structural)]
pub enum ArgKind {
    /// A string.
    Text,
    /// A non-negative integer that fits in 64 bits.
    Unsigned,
    /// A boolean.
    Boolean,
    /// An array whose items are all strings.
    TextList,
    /// Anything else.
    Other,
}

/// Whether a value of shape `k` fits an input of type `t`.
pub open spec fn kind_fits(k: ArgKind, t: ToolInputType) -> bool {
    match t {
        ToolInputType::String => k is Text,
        ToolInputType::Integer => k is Unsigned,
        ToolInputType::Boolean => k is Boolean,
        ToolInputType::StringList => k is TextList,
    }
}

/// Whether a value of shape `kind` matches one declared input type.
pub fn value_matches_input(kind: ArgKind, input: ToolInputType) -> (b: bool)
    ensures
        b == kind_fits(kind, input),
{
    match input {
        ToolInputType::String => kind == ArgKind::Text,
        ToolInputType::Integer => kind == ArgKind::Unsigned,
        ToolInputType::Boolean => kind == ArgKind::Boolean,
        ToolInputType::StringList => kind == ArgKind::TextList,
    }
}

/// The user-facing label of an input type.
pub open spec fn type_label(t: ToolInputType) -> Seq<char> {
    match t {
        ToolInputType::String => "string"@,
        ToolInputType::Integer => "non-negative integer"@,
        ToolInputType::Boolean => "boolean"@,
        ToolInputType::StringList => "array of strings"@,
    }
}

/// The user-facing expected type label for one input type.
pub fn expected_type_label(t: ToolInputType) -> (s: &'static str)
    ensures
        s@ == type_label(t),
{
    match t {
        ToolInputType::String => "string",
        ToolInputType::Integer => "non-negative integer",
        ToolInputType::Boolean => "boolean",
        ToolInputType::StringList => "array of strings",
    }
}

/// The first tool at or after `i` named `tool`.
pub open spec fn find_tool(ds: Seq<ToolDescriptor>, tool: Seq<char>, i: int) -> Option<int>
    decreases ds.len() - i,
{
    if i < 0 || i >= ds.len() {
        None
    } else if ds[i].name@ == tool {
        Some(i)
    } else {
        find_tool(ds, tool, i + 1)
    }
}

/// Whether some input at or after `j` is named `key`.
pub open spec fn declares(inputs: Seq<ToolInputDescriptor>, key: Seq<char>, j: int) -> bool
    decreases inputs.len() - j,
{
    if j < 0 || j >= inputs.len() {
        false
    } else {
        inputs[j].name@ == key || declares(inputs, key, j + 1)
    }
}

/// The first argument at or after `k` whose key no input declares.
pub open spec fn first_unknown(
    args: Seq<(String, ArgKind)>,
    inputs: Seq<ToolInputDescriptor>,
    k: int,
) -> Option<int>
    decreases args.len() - k,
{
    if k < 0 || k >= args.len() {
        None
    } else if !declares(inputs, args[k].0@, 0) {
        Some(k)
    } else {
        first_unknown(args, inputs, k + 1)
    }
}

/// The shape of the first argument at or after `k` with key `key`.
pub open spec fn arg_of(args: Seq<(String, ArgKind)>, key: Seq<char>, k: int) -> Option<ArgKind>
    decreases args.len() - k,
{
    if k < 0 || k >= args.len() {
        None
    } else if args[k].0@ == key {
        Some(args[k].1)
    } else {
        arg_of(args, key, k + 1)
    }
}

/// The complaint about input `i`, if any: missing though required, or
/// given with the wrong type.
pub open spec fn input_complaint(i: ToolInputDescriptor, args: Seq<(String, ArgKind)>) -> Option<
    Seq<char>,
> {
    match arg_of(args, i.name@, 0) {
        None => if i.required {
            Some("missing required field: "@ + i.name@)
        } else {
            None
        },
        Some(k) => if kind_fits(k, i.kind) {
            None
        } else {
            Some("invalid field type for `"@ + i.name@ + "`: expected "@ + type_label(i.kind))
        },
    }
}

/// The first complaint about the inputs at or after `j`.
pub open spec fn first_complaint(
    inputs: Seq<ToolInputDescriptor>,
    args: Seq<(String, ArgKind)>,
    j: int,
) -> Option<Seq<char>>
    decreases inputs.len() - j,
{
    if j < 0 || j >= inputs.len() {
        None
    } else {
        match input_complaint(inputs[j], args) {
            Some(m) => Some(m),
            None => first_complaint(inputs, args, j + 1),
        }
    }
}

/// The outcome of validating the arguments of a call of `tool`: `None`
/// when they are accepted, or the message refusing them.
pub open spec fn arguments_refusal(
    tool: Seq<char>,
    args: Seq<(String, ArgKind)>,
    ds: Seq<ToolDescriptor>,
) -> Option<Seq<char>> {
    match find_tool(ds, tool, 0) {
        None => Some("unknown tool: "@ + tool),
        Some(i) => match first_unknown(args, ds[i].inputs@, 0) {
            Some(k) => Some("unknown field for "@ + tool + ": "@ + args[k].0@),
            None => first_complaint(ds[i].inputs@, args, 0),
        },
    }
}

fn arg_lookup(args: &Vec<(String, ArgKind)>, key: &str) -> (r: Option<ArgKind>)
    ensures
        r == arg_of(args@, key@, 0),
{
    let mut k: usize = 0;
    while k < args.len()
        invariant
            k <= args.len(),
            arg_of(args@, key@, 0) == arg_of(args@, key@, k as int),
        decreases args.len() - k,
    {
        if text_eq(args[k].0.as_str(), key) {
            return Some(args[k].1);
        }
        k = k + 1;
    }
    None
}

fn declared(inputs: &Vec<ToolInputDescriptor>, key: &str) -> (b: bool)
    ensures
        b == declares(inputs@, key@, 0),
{
    let mut j: usize = 0;
    while j < inputs.len()
        invariant
            j <= inputs.len(),
            declares(inputs@, key@, 0) == declares(inputs@, key@, j as int),
        decreases inputs.len() - j,
    {
        if text_eq(inputs[j].name, key) {
            return true;
        }
        j = j + 1;
    }
    false
}

fn tool_index(descriptors: &Vec<ToolDescriptor>, tool: &str) -> (r: Option<usize>)
    ensures
        match r {
            Some(i) => i < descriptors@.len() && find_tool(descriptors@, tool@, 0) == Some(i as int),
            None => find_tool(descriptors@, tool@, 0) is None,
        },
{
    let mut i: usize = 0;
    while i < descriptors.len()
        invariant
            i <= descriptors.len(),
            find_tool(descriptors@, tool@, 0) == find_tool(descriptors@, tool@, i as int),
        decreases descriptors.len() - i,
    {
        if text_eq(descriptors[i].name, tool) {
            return Some(i);
        }
        i = i + 1;
    }
    None
}

/// Validate one call's arguments against the declared tool descriptors.
///
/// `args` lists the argument object's keys, in iteration order, with the
/// JSON shape of each value.
pub fn validate_tool_arguments(
    tool: &str,
    args: &Vec<(String, ArgKind)>,
    descriptors: &Vec<ToolDescriptor>,
) -> (r: Result<(), String>)
    ensures
        match r {
            Ok(()) => arguments_refusal(tool@, args@, descriptors@) is None,
            Err(m) => arguments_refusal(tool@, args@, descriptors@) == Some(m@),
        },
{
    let i = match tool_index(descriptors, tool) {
        Some(i) => i,
        None => {
            let mut m = String::from_str("unknown tool: ");
            m.append(tool);
            return Err(m);
        },
    };
    let d = &descriptors[i];
    let mut k: usize = 0;
    while k < args.len()
        invariant
            k <= args.len(),
            i < descriptors@.len(),
            find_tool(descriptors@, tool@, 0) == Some(i as int),
            *d == descriptors@[i as int],
            first_unknown(args@, d.inputs@, 0) == first_unknown(args@, d.inputs@, k as int),
        decreases args.len() - k,
    {
        if !declared(&d.inputs, args[k].0.as_str()) {
            let mut m = String::from_str("unknown field for ");
            m.append(tool);
            m.append(": ");
            m.append(args[k].0.as_str());
            return Err(m);
        }
        k = k + 1;
    }
    let mut j: usize = 0;
    while j < d.inputs.len()
        invariant
            j <= d.inputs.len(),
            i < descriptors@.len(),
            find_tool(descriptors@, tool@, 0) == Some(i as int),
            *d == descriptors@[i as int],
            first_unknown(args@, d.inputs@, 0) is None,
            first_complaint(d.inputs@, args@, 0) == first_complaint(d.inputs@, args@, j as int),
        decreases d.inputs.len() - j,
    {
        let input = d.inputs[j];
        match arg_lookup(args, input.name) {
            None => {
                if input.required {
                    let mut m = String::from_str("missing required field: ");
                    m.append(input.name);
                    return Err(m);
                }
            },
            Some(kind) => {
                if !value_matches_input(kind, input.kind) {
                    let mut m = String::from_str("invalid field type for `");
                    m.append(input.name);
                    m.append("`: expected ");
                    m.append(expected_type_label(input.kind));
                    return Err(m);
                }
            },
        }
        j = j + 1;
    }
    Ok(())
}

/// The mailbox filter given by the optional `from`, `to` and `exact`
/// arguments; `exact` cannot be combined with the range bounds.
pub fn extract_sequence_filter(from: Option<u64>, to: Option<u64>, exact: Option<u64>) -> (r: Result<
    SequenceFilter,
    String,
>)
    ensures
        match r {
            Ok(f) => !(exact is Some && (from is Some || to is Some)) && f == match exact {
                Some(s) => SequenceFilter::Exact(Sequence(s)),
                None => SequenceFilter::Range {
                    from: match from {
                        Some(s) => Some(Sequence(s)),
                        None => None,
                    },
                    to: match to {
                        Some(s) => Some(Sequence(s)),
                        None => None,
                    },
                },
            },
            Err(m) => exact is Some && (from is Some || to is Some) && m@
                == "exact is mutually exclusive with from/to"@,
        },
{
    if exact.is_some() && (from.is_some() || to.is_some()) {
        return Err(String::from_str("exact is mutually exclusive with from/to"));
    }
    let from = match from {
        Some(s) => Some(Sequence(s)),
        None => None,
    };
    let to = match to {
        Some(s) => Some(Sequence(s)),
        None => None,
    };
    match exact {
        Some(s) => Ok(SequenceFilter::Exact(Sequence(s))),
        None => Ok(SequenceFilter::Range { from, to }),
    }
}

/// A worker id argument, or the message that refuses it:
/// `invalid worker: ` and why the text is no worker id.
pub fn parse_worker_id(text: &str) -> (r: Result<WorkerId, String>)
    ensures
        match r {
            Ok(w) => worker_id_result_spec(text@, Ok(w)),
            Err(m) => exists|e| worker_id_result_spec(text@, Err(e)) && m@ == "invalid worker: "@
                + worker_id_error_text(e),
        },
{
    match WorkerId::new(text) {
        Ok(w) => Ok(w),
        Err(e) => {
            let mut m = String::from_str("invalid worker: ");
            m.append(e.message().as_str());
            Err(m)
        },
    }
}

/// A perspective name argument, or the message that refuses it:
/// `invalid perspective name: ` and why the text is no perspective name.
pub fn parse_perspective(text: &str) -> (r: Result<PerspectiveName, String>)
    ensures
        match r {
            Ok(p) => perspective_name_result_spec(text@, Ok(p)),
            Err(m) => exists|e| perspective_name_result_spec(text@, Err(e)) && m@
                == "invalid perspective name: "@ + perspective_name_error_text(e),
        },
{
    match PerspectiveName::new(text) {
        Ok(p) => Ok(p),
        Err(e) => {
            let mut m = String::from_str("invalid perspective name: ");
            m.append(e.message().as_str());
            Err(m)
        },
    }
}

/// The refusal of a tool name that the surface does not serve.
pub fn unknown_tool(name: &str) -> (m: String)
    ensures
        m@ == "unknown tool: "@ + name@,
{
    let mut m = String::from_str("unknown tool: ");
    m.append(name);
    m
}

} // verus!
