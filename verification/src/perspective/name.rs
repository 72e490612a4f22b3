//! The [`PerspectiveName`] newtype — a validated perspective identifier.

use vstd::prelude::*;
use vstd::string::*;

use super::error::PerspectiveNameError;
use crate::label::Label;
use crate::text::{ident_scan_spec, ident_valid, scan_ident, IdentScan};

verus! {

/// A validated perspective identifier (e.g. `AuthImplementor`).
///
/// The same lexical rules as file set names: non-empty, an uppercase
/// ASCII first letter, then ASCII letters and digits. A distinct type so
/// the two kinds of names cannot be mixed.
#[derive(Debug, Clone, PartialEq, Eq, Hash, PartialOrd, Ord)]
pub struct PerspectiveName(String);

impl View for PerspectiveName {
    type V = Seq<char>;

    closed spec fn view(&self) -> Seq<char> {
        self.0@
    }
}

/// The result `PerspectiveName::new` gives for the text `s`.
pub open spec fn perspective_name_result_spec(
    s: Seq<char>,
    r: Result<PerspectiveName, PerspectiveNameError>,
) -> bool {
    match r {
        Ok(n) => n@ == s && ident_valid(s, true),
        Err(PerspectiveNameError::Empty) => ident_scan_spec(s, true, IdentScan::Empty),
        Err(PerspectiveNameError::InvalidStart { name }) => name@ == s && ident_scan_spec(
            s,
            true,
            IdentScan::BadStart,
        ),
        Err(PerspectiveNameError::InvalidChar { name, ch, pos }) => name@ == s && ident_scan_spec(
            s,
            true,
            IdentScan::BadChar { ch, pos },
        ),
    }
}

impl PerspectiveName {
    /// Create a new `PerspectiveName`, validating the identifier rules.
    pub fn new(s: &str) -> (r: Result<Self, PerspectiveNameError>)
        ensures
            perspective_name_result_spec(s@, r),
    {
        match scan_ident(s, true) {
            IdentScan::Empty => Err(PerspectiveNameError::Empty),
            IdentScan::BadStart => Err(
                PerspectiveNameError::InvalidStart { name: String::from_str(s) },
            ),
            IdentScan::BadChar { ch, pos } => Err(
                PerspectiveNameError::InvalidChar { name: String::from_str(s), ch, pos },
            ),
            IdentScan::Valid => Ok(PerspectiveName(String::from_str(s))),
        }
    }

    /// The text, as an owned string (what `Display` writes).
    pub fn to_text(&self) -> (r: String)
        ensures
            r@ == self@,
    {
        self.0.clone()
    }

    /// The identifier as a string slice.
    pub fn as_str(&self) -> (r: &str)
        ensures
            r@ == self@,
    {
        self.0.as_str()
    }
}

impl Label for PerspectiveName {
    fn text(&self) -> (r: &str) {
        self.as_str()
    }

    fn same(&self, other: &Self) -> (r: bool) {
        self.0 == other.0
    }

    fn dup(&self) -> (r: Self)
        ensures
            r == *self,
    {
        PerspectiveName(self.0.clone())
    }
}

} // verus!
