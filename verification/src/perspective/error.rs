//! Error types for the perspective module.

use vstd::prelude::*;

use super::name::PerspectiveName;
use crate::fileset::error::{parse_error_text, ParseError};
use crate::num::decimal;
use crate::text::{push_char, push_decimal};
use crate::fileset::name::Name;
use crate::path_set::PathSet;

verus! {

/// Errors produced when constructing a [`PerspectiveName`].
#[derive(Debug, PartialEq, Eq)]
pub enum PerspectiveNameError {
    /// The input string was empty.
    Empty,
    /// The first character is not an uppercase ASCII letter.
    InvalidStart { name: String },
    /// A non-alphanumeric character was found at byte offset `pos`.
    InvalidChar { name: String, ch: char, pos: usize },
}

/// A violation of the safety property between two perspectives of one
/// rulebook.
#[derive(Debug)]
pub enum SafetyViolation {
    /// Two perspectives have overlapping write sets.
    WriteWriteOverlap { left: PerspectiveName, right: PerspectiveName, files: PathSet },
    /// A file is written by one perspective and read by another.
    WriteReadOverlap { writer: PerspectiveName, reader: PerspectiveName, files: PathSet },
}

/// A violation of the conflict-free invariant between two compiled
/// boundaries.
#[derive(Debug)]
pub enum ConflictViolation {
    /// Two boundaries have overlapping write sets.
    WriteWriteOverlap { left: PerspectiveName, right: PerspectiveName, files: PathSet },
    /// A file is written by one boundary and read by another.
    WriteReadOverlap { writer: PerspectiveName, reader: PerspectiveName, files: PathSet },
}

/// Top-level error for the perspective pipeline.
#[derive(Debug)]
pub enum PerspectiveError {
    /// A file set expression failed to parse.
    Parse { perspective: PerspectiveName, source: ParseError },
    /// A perspective references a file set name that is not defined.
    UndefinedFileSet { perspective: PerspectiveName, name: Name },
    /// The safety property was violated.
    Safety(SafetyViolation),
}

/// What a [`PerspectiveNameError`] says.
pub open spec fn perspective_name_error_text(e: PerspectiveNameError) -> Seq<char> {
    match e {
        PerspectiveNameError::Empty => "perspective name is empty"@,
        PerspectiveNameError::InvalidStart { name } => "perspective name `"@ + name@
            + "` must start with an uppercase ASCII letter"@,
        PerspectiveNameError::InvalidChar { name, ch, pos } => "perspective name `"@ + name@
            + "` contains invalid character `"@ + seq![ch] + "` at byte "@ + decimal(pos as nat),
    }
}

impl PerspectiveNameError {
    /// The message of this error.
    pub fn message(&self) -> (r: String)
        ensures
            r@ == perspective_name_error_text(*self),
    {
        match self {
            PerspectiveNameError::Empty => String::from_str("perspective name is empty"),
            PerspectiveNameError::InvalidStart { name } => {
                let mut s = String::from_str("perspective name `");
                s.append(name.as_str());
                s.append("` must start with an uppercase ASCII letter");
                s
            },
            PerspectiveNameError::InvalidChar { name, ch, pos } => {
                let mut s = String::from_str("perspective name `");
                s.append(name.as_str());
                s.append("` contains invalid character `");
                push_char(&mut s, *ch);
                s.append("` at byte ");
                push_decimal(&mut s, *pos);
                s
            },
        }
    }
}

/// The message of a write-write overlap of `count` files.
pub open spec fn write_write_text(left: Seq<char>, right: Seq<char>, count: nat) -> Seq<char> {
    "write-write overlap between `"@ + left + "` and `"@ + right + "`: "@ + decimal(count)
        + " shared file(s)"@
}

/// The message of a write-read overlap of `count` files.
pub open spec fn write_read_text(writer: Seq<char>, reader: Seq<char>, count: nat) -> Seq<char> {
    "write-read overlap: `"@ + writer + "` writes and `"@ + reader + "` reads "@ + decimal(count)
        + " shared file(s)"@
}

/// Render a write-write overlap.
fn write_write_message(left: &PerspectiveName, right: &PerspectiveName, files: &PathSet) -> (r:
    String)
    ensures
        r@ == write_write_text(left@, right@, files.items().len()),
{
    let mut s = String::from_str("write-write overlap between `");
    s.append(left.as_str());
    s.append("` and `");
    s.append(right.as_str());
    s.append("`: ");
    push_decimal(&mut s, files.count());
    s.append(" shared file(s)");
    s
}

/// Render a write-read overlap.
fn write_read_message(writer: &PerspectiveName, reader: &PerspectiveName, files: &PathSet) -> (r:
    String)
    ensures
        r@ == write_read_text(writer@, reader@, files.items().len()),
{
    let mut s = String::from_str("write-read overlap: `");
    s.append(writer.as_str());
    s.append("` writes and `");
    s.append(reader.as_str());
    s.append("` reads ");
    push_decimal(&mut s, files.count());
    s.append(" shared file(s)");
    s
}

/// What a [`SafetyViolation`] says.
pub open spec fn safety_violation_text(e: SafetyViolation) -> Seq<char> {
    match e {
        SafetyViolation::WriteWriteOverlap { left, right, files } => write_write_text(
            left@,
            right@,
            files.items().len(),
        ),
        SafetyViolation::WriteReadOverlap { writer, reader, files } => write_read_text(
            writer@,
            reader@,
            files.items().len(),
        ),
    }
}

impl SafetyViolation {
    /// The message of this violation.
    pub fn message(&self) -> (r: String)
        ensures
            r@ == safety_violation_text(*self),
    {
        match self {
            SafetyViolation::WriteWriteOverlap { left, right, files } => write_write_message(
                left,
                right,
                files,
            ),
            SafetyViolation::WriteReadOverlap { writer, reader, files } => write_read_message(
                writer,
                reader,
                files,
            ),
        }
    }
}

/// What a [`ConflictViolation`] says.
pub open spec fn conflict_violation_text(e: ConflictViolation) -> Seq<char> {
    match e {
        ConflictViolation::WriteWriteOverlap { left, right, files } => write_write_text(
            left@,
            right@,
            files.items().len(),
        ),
        ConflictViolation::WriteReadOverlap { writer, reader, files } => write_read_text(
            writer@,
            reader@,
            files.items().len(),
        ),
    }
}

impl ConflictViolation {
    /// The message of this violation.
    pub fn message(&self) -> (r: String)
        ensures
            r@ == conflict_violation_text(*self),
    {
        match self {
            ConflictViolation::WriteWriteOverlap { left, right, files } => write_write_message(
                left,
                right,
                files,
            ),
            ConflictViolation::WriteReadOverlap { writer, reader, files } => write_read_message(
                writer,
                reader,
                files,
            ),
        }
    }
}

/// What a [`PerspectiveError`] says.
pub open spec fn perspective_error_text(e: PerspectiveError) -> Seq<char> {
    match e {
        PerspectiveError::Parse { perspective, source } => "in perspective `"@ + perspective@
            + "`: "@ + parse_error_text(source),
        PerspectiveError::UndefinedFileSet { perspective, name } => "perspective `"@
            + perspective@ + "` references undefined file set `"@ + name@ + "`"@,
        PerspectiveError::Safety(v) => safety_violation_text(v),
    }
}

impl PerspectiveError {
    /// The message of this error.
    pub fn message(&self) -> (r: String)
        ensures
            r@ == perspective_error_text(*self),
    {
        match self {
            PerspectiveError::Parse { perspective, source } => {
                let mut s = String::from_str("in perspective `");
                s.append(perspective.as_str());
                s.append("`: ");
                let m = source.message();
                s.append(m.as_str());
                s
            },
            PerspectiveError::UndefinedFileSet { perspective, name } => {
                let mut s = String::from_str("perspective `");
                s.append(perspective.as_str());
                s.append("` references undefined file set `");
                s.append(name.as_str());
                s.append("`");
                s
            },
            PerspectiveError::Safety(v) => v.message(),
        }
    }
}

} // verus!
