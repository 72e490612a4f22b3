//! Error types for the file set algebra.

use vstd::prelude::*;

use super::name::Name;
use crate::num::decimal;
use crate::text::{push_char, push_decimal};

verus! {

/// Errors produced when constructing a [`Name`].
#[derive(Debug, PartialEq, Eq)]
pub enum NameError {
    /// The input string was empty.
    Empty,
    /// The first character is not an uppercase ASCII letter.
    InvalidStart { name: String },
    /// A non-alphanumeric character was found at byte offset `pos`.
    InvalidChar { name: String, ch: char, pos: usize },
}

/// Errors produced when constructing a glob pattern.
#[derive(Debug, PartialEq, Eq)]
pub enum GlobPatternError {
    /// The pattern is not a valid glob expression.
    Invalid { pattern: String, reason: String },
}

/// Errors produced when parsing a file set expression string.
#[derive(Debug, PartialEq, Eq)]
pub enum ParseError {
    /// The expression ended where a name or `(` was expected.
    UnexpectedEof,
    /// An unexpected character was encountered at byte offset `pos`.
    UnexpectedChar { ch: char, pos: usize },
    /// A `(` was opened but no `)` was found at byte offset `pos`.
    UnclosedParen { pos: usize },
    /// Content remained after the expression, starting at byte offset `pos`.
    TrailingContent { pos: usize },
    /// A name within the expression failed validation.
    InvalidName(NameError),
}

/// Errors produced during validation of file set definitions.
#[derive(Debug, PartialEq, Eq)]
pub enum ValidationError {
    /// A compound expression references a name not defined in the table.
    Undefined { name: Name, referenced_by: Name },
    /// A cycle was detected in the dependency graph.
    Cycle { cycle: String },
}

/// Errors produced during compilation of file set definitions.
#[derive(Debug, PartialEq, Eq)]
pub enum CompileError {
    /// A glob pattern failed to compile.
    Glob { pattern: String, reason: String },
    /// Filesystem walking failed.
    Walk { root: String, reason: String },
}

/// Top-level error for the file set pipeline (validation or compilation).
#[derive(Debug, PartialEq, Eq)]
pub enum FileSetError {
    /// Validation failed.
    Validation(ValidationError),
    /// Compilation failed.
    Compile(CompileError),
}

/// What a [`NameError`] says.
pub open spec fn name_error_text(e: NameError) -> Seq<char> {
    match e {
        NameError::Empty => "file set name is empty"@,
        NameError::InvalidStart { name } => "file set name `"@ + name@
            + "` must start with an uppercase ASCII letter"@,
        NameError::InvalidChar { name, ch, pos } => "file set name `"@ + name@
            + "` contains invalid character `"@ + seq![ch] + "` at byte "@ + decimal(pos as nat),
    }
}

impl NameError {
    /// The message of this error.
    pub fn message(&self) -> (r: String)
        ensures
            r@ == name_error_text(*self),
    {
        match self {
            NameError::Empty => String::from_str("file set name is empty"),
            NameError::InvalidStart { name } => {
                let mut s = String::from_str("file set name `");
                s.append(name.as_str());
                s.append("` must start with an uppercase ASCII letter");
                s
            },
            NameError::InvalidChar { name, ch, pos } => {
                let mut s = String::from_str("file set name `");
                s.append(name.as_str());
                s.append("` contains invalid character `");
                push_char(&mut s, *ch);
                s.append("` at byte ");
                push_decimal(&mut s, *pos);
                s
            },
        }
    }
}

/// What a [`GlobPatternError`] says.
pub open spec fn glob_pattern_error_text(e: GlobPatternError) -> Seq<char> {
    match e {
        GlobPatternError::Invalid { pattern, reason } => "invalid glob pattern `"@ + pattern@
            + "`: "@ + reason@,
    }
}

impl GlobPatternError {
    /// The message of this error.
    pub fn message(&self) -> (r: String)
        ensures
            r@ == glob_pattern_error_text(*self),
    {
        match self {
            GlobPatternError::Invalid { pattern, reason } => {
                let mut s = String::from_str("invalid glob pattern `");
                s.append(pattern.as_str());
                s.append("`: ");
                s.append(reason.as_str());
                s
            },
        }
    }
}

/// What a [`ParseError`] says.
pub open spec fn parse_error_text(e: ParseError) -> Seq<char> {
    match e {
        ParseError::UnexpectedEof => "unexpected end of expression"@,
        ParseError::UnexpectedChar { ch, pos } => "unexpected character `"@ + seq![ch]
            + "` at byte "@ + decimal(pos as nat),
        ParseError::UnclosedParen { pos } => "expected closing parenthesis at byte "@ + decimal(
            pos as nat,
        ),
        ParseError::TrailingContent { pos } => "trailing content at byte "@ + decimal(pos as nat),
        ParseError::InvalidName(n) => "invalid name: "@ + name_error_text(n),
    }
}

impl ParseError {
    /// The message of this error.
    pub fn message(&self) -> (r: String)
        ensures
            r@ == parse_error_text(*self),
    {
        match self {
            ParseError::UnexpectedEof => String::from_str("unexpected end of expression"),
            ParseError::UnexpectedChar { ch, pos } => {
                let mut s = String::from_str("unexpected character `");
                push_char(&mut s, *ch);
                s.append("` at byte ");
                push_decimal(&mut s, *pos);
                s
            },
            ParseError::UnclosedParen { pos } => {
                let mut s = String::from_str("expected closing parenthesis at byte ");
                push_decimal(&mut s, *pos);
                s
            },
            ParseError::TrailingContent { pos } => {
                let mut s = String::from_str("trailing content at byte ");
                push_decimal(&mut s, *pos);
                s
            },
            ParseError::InvalidName(n) => {
                let mut s = String::from_str("invalid name: ");
                let m = n.message();
                s.append(m.as_str());
                s
            },
        }
    }
}

/// What a [`ValidationError`] says.
pub open spec fn validation_error_text(e: ValidationError) -> Seq<char> {
    match e {
        ValidationError::Undefined { name, referenced_by } => "undefined file set `"@ + name@
            + "`, referenced by `"@ + referenced_by@ + "`"@,
        ValidationError::Cycle { cycle } => "cycle detected in file set definitions: "@ + cycle@,
    }
}

impl ValidationError {
    /// The message of this error.
    pub fn message(&self) -> (r: String)
        ensures
            r@ == validation_error_text(*self),
    {
        match self {
            ValidationError::Undefined { name, referenced_by } => {
                let mut s = String::from_str("undefined file set `");
                s.append(name.as_str());
                s.append("`, referenced by `");
                s.append(referenced_by.as_str());
                s.append("`");
                s
            },
            ValidationError::Cycle { cycle } => {
                let mut s = String::from_str("cycle detected in file set definitions: ");
                s.append(cycle.as_str());
                s
            },
        }
    }
}

/// What a [`CompileError`] says.
pub open spec fn compile_error_text(e: CompileError) -> Seq<char> {
    match e {
        CompileError::Glob { pattern, reason } => "invalid glob pattern `"@ + pattern@ + "`: "@
            + reason@,
        CompileError::Walk { root, reason } => "failed to walk directory `"@ + root@ + "`: "@
            + reason@,
    }
}

impl CompileError {
    /// The message of this error.
    pub fn message(&self) -> (r: String)
        ensures
            r@ == compile_error_text(*self),
    {
        match self {
            CompileError::Glob { pattern, reason } => {
                let mut s = String::from_str("invalid glob pattern `");
                s.append(pattern.as_str());
                s.append("`: ");
                s.append(reason.as_str());
                s
            },
            CompileError::Walk { root, reason } => {
                let mut s = String::from_str("failed to walk directory `");
                s.append(root.as_str());
                s.append("`: ");
                s.append(reason.as_str());
                s
            },
        }
    }
}

/// What a [`FileSetError`] says: the message of the error it carries.
pub open spec fn file_set_error_text(e: FileSetError) -> Seq<char> {
    match e {
        FileSetError::Validation(v) => validation_error_text(v),
        FileSetError::Compile(c) => compile_error_text(c),
    }
}

impl FileSetError {
    /// The message of this error.
    pub fn message(&self) -> (r: String)
        ensures
            r@ == file_set_error_text(*self),
    {
        match self {
            FileSetError::Validation(v) => v.message(),
            FileSetError::Compile(c) => c.message(),
        }
    }
}

} // verus!
