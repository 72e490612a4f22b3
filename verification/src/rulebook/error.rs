//! Error types for the rulebook module.

use vstd::prelude::*;

use super::check::CheckName;
use crate::fileset::error::{file_set_error_text, FileSetError};
use crate::num::decimal;
use crate::perspective::error::{perspective_error_text, PerspectiveError};
use crate::text::{push_char, push_decimal};

verus! {

/// Errors produced when constructing a [`CheckName`].
#[derive(Debug, PartialEq, Eq)]
pub enum CheckNameError {
    /// The input string was empty.
    Empty,
    /// The first character is not a lowercase ASCII letter.
    InvalidStart { name: String },
    /// A non-alphanumeric character was found at byte offset `pos`.
    InvalidChar { name: String, ch: char, pos: usize },
}

/// Errors produced while validating the check pipeline.
#[derive(Debug, PartialEq, Eq)]
pub enum CheckValidationError {
    /// A pipeline entry names a check with no declaration.
    UndefinedPipelineEntry { name: CheckName },
    /// A check appears more than once in the pipeline.
    DuplicatePipelineEntry { name: CheckName },
    /// A declared check never appears in the pipeline.
    UnusedDeclaredCheck { name: CheckName },
    /// A declared command is empty after trimming whitespace.
    EmptyCommand { name: CheckName },
}

/// Top-level error for loading and compiling a rulebook.
#[derive(Debug)]
pub enum RulebookError {
    /// The rulebook text could not be decoded.
    Decode { reason: String },
    /// The file set table failed validation or compilation.
    FileSet(FileSetError),
    /// The perspective table failed to compile.
    Perspective(PerspectiveError),
    /// The check pipeline failed validation.
    Check(CheckValidationError),
}

/// What a [`CheckNameError`] says.
pub open spec fn check_name_error_text(e: CheckNameError) -> Seq<char> {
    match e {
        CheckNameError::Empty => "check name is empty"@,
        CheckNameError::InvalidStart { name } => "check name `"@ + name@
            + "` must start with a lowercase ASCII letter"@,
        CheckNameError::InvalidChar { name, ch, pos } => "check name `"@ + name@
            + "` contains invalid character `"@ + seq![ch] + "` at byte "@ + decimal(pos as nat),
    }
}

impl CheckNameError {
    /// The message of this error.
    pub fn message(&self) -> (r: String)
        ensures
            r@ == check_name_error_text(*self),
    {
        match self {
            CheckNameError::Empty => String::from_str("check name is empty"),
            CheckNameError::InvalidStart { name } => {
                let mut s = String::from_str("check name `");
                s.append(name.as_str());
                s.append("` must start with a lowercase ASCII letter");
                s
            },
            CheckNameError::InvalidChar { name, ch, pos } => {
                let mut s = String::from_str("check name `");
                s.append(name.as_str());
                s.append("` contains invalid character `");
                push_char(&mut s, *ch);
                s.append("` at byte ");
                push_decimal(&mut s, *pos);
                s
            },
        }
    }
}

/// What a [`CheckValidationError`] says.
pub open spec fn check_validation_error_text(e: CheckValidationError) -> Seq<char> {
    match e {
        CheckValidationError::UndefinedPipelineEntry { name } =>
            "check pipeline names undeclared check `"@ + name@ + "`"@,
        CheckValidationError::DuplicatePipelineEntry { name } => "check `"@ + name@
            + "` appears more than once in the pipeline"@,
        CheckValidationError::UnusedDeclaredCheck { name } => "check `"@ + name@
            + "` is declared but not in the pipeline"@,
        CheckValidationError::EmptyCommand { name } => "check `"@ + name@ + "` has an empty command"@,
    }
}

/// `prefix`, then the name, then `suffix`.
fn around(prefix: &str, name: &CheckName, suffix: &str) -> (r: String)
    ensures
        r@ == prefix@ + name@ + suffix@,
{
    let mut s = String::from_str(prefix);
    s.append(name.as_str());
    s.append(suffix);
    s
}

impl CheckValidationError {
    /// The message of this error.
    pub fn message(&self) -> (r: String)
        ensures
            r@ == check_validation_error_text(*self),
    {
        match self {
            CheckValidationError::UndefinedPipelineEntry { name } => around(
                "check pipeline names undeclared check `",
                name,
                "`",
            ),
            CheckValidationError::DuplicatePipelineEntry { name } => around(
                "check `",
                name,
                "` appears more than once in the pipeline",
            ),
            CheckValidationError::UnusedDeclaredCheck { name } => around(
                "check `",
                name,
                "` is declared but not in the pipeline",
            ),
            CheckValidationError::EmptyCommand { name } => around(
                "check `",
                name,
                "` has an empty command",
            ),
        }
    }
}

/// What a [`RulebookError`] says: the message of the error it carries.
pub open spec fn rulebook_error_text(e: RulebookError) -> Seq<char> {
    match e {
        RulebookError::Decode { reason } => reason@,
        RulebookError::FileSet(f) => file_set_error_text(f),
        RulebookError::Perspective(p) => perspective_error_text(p),
        RulebookError::Check(c) => check_validation_error_text(c),
    }
}

impl RulebookError {
    /// The message of this error.
    pub fn message(&self) -> (r: String)
        ensures
            r@ == rulebook_error_text(*self),
    {
        match self {
            RulebookError::Decode { reason } => reason.clone(),
            RulebookError::FileSet(f) => f.message(),
            RulebookError::Perspective(p) => p.message(),
            RulebookError::Check(c) => c.message(),
        }
    }
}

} // verus!
