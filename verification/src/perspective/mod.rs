//! Perspectives: named roles that bind a read set and a write set, both
//! written as file set expressions, compiled to concrete file lists.

pub mod compile;
pub mod decl;
pub mod error;
pub mod name;
pub mod safety;
pub mod validation;
