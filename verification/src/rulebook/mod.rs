//! The rulebook: file sets, perspectives and the pre-merge check
//! pipeline, declared together and compiled as one unit.

pub mod check;
pub mod compile;
pub mod decl;
pub mod error;
