//! Multorum: orchestrated parallel development with explicit file
//! ownership and conflict freedom enforced by construction.

pub mod bundle;
pub mod cli;
pub mod fileset;
pub mod label;
pub mod mcp;
pub mod methodology;
pub mod num;
pub mod path_set;
pub mod perm;
pub mod perspective;
pub mod rulebook;
pub mod runtime;
pub mod sort;
pub mod text;

use vstd::prelude::*;

verus! {
} // verus!
