//! Canonical git commit identifiers stored by the runtime.
//!
//! Frontends may accept symbolic revisions such as `HEAD~1` as user
//! input, but the runtime resolves them to a stable commit id before
//! persisting any state. This module owns that persisted representation.

use vstd::prelude::*;

verus! {

/// A canonical git commit identifier resolved by the runtime.
///
/// Holds the output of `git rev-parse --verify <rev>^{commit}`, never a
/// symbolic revision or an abbreviated hash.
#[derive(Debug, PartialEq, Eq, Hash, PartialOrd, Ord)]
pub struct CanonicalCommitHash(String);

impl View for CanonicalCommitHash {
    type V = Seq<char>;

    closed spec fn view(&self) -> Seq<char> {
        self.0@
    }
}

impl Clone for CanonicalCommitHash {
    /// A copy holding the same hash.
    fn clone(&self) -> (r: Self)
        ensures
            r == *self,
    {
        CanonicalCommitHash(self.0.clone())
    }
}

impl CanonicalCommitHash {
    /// Wrap an already-resolved commit hash.
    pub fn new(resolved: String) -> (c: Self)
        ensures
            c@ == resolved@,
    {
        CanonicalCommitHash(resolved)
    }

    /// The canonical commit hash as a string slice.
    pub fn as_str(&self) -> (r: &str)
        ensures
            r@ == self@,
    {
        self.0.as_str()
    }

    /// Whether two hashes name the same commit.
    pub fn same(&self, other: &Self) -> (b: bool)
        ensures
            b == (self@ == other@),
    {
        self.0 == other.0
    }
}

} // verus!
