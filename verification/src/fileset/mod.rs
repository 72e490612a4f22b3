//! The file set algebra: named globs combined by union, intersection and
//! difference, validated for undefined references and cycles, and
//! compiled against a list of repository files.

pub mod compile;
pub mod error;
pub mod expr;
pub mod name;
pub mod parse;
pub mod validate;
