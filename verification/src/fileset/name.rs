//! The [`Name`] newtype — a validated file set identifier.

use vstd::prelude::*;
use vstd::string::*;

use super::error::NameError;
use crate::label::Label;
use crate::text::{ident_scan_spec, ident_valid, scan_ident, IdentScan};

verus! {

/// A validated file set identifier (e.g. `AuthFiles`, `SpecFiles`).
///
/// Non-empty, starts with an uppercase ASCII letter, and contains only
/// ASCII letters and digits.
#[derive(Debug, Clone, PartialEq, Eq, Hash, PartialOrd, Ord)]
pub struct Name(String);

impl View for Name {
    type V = Seq<char>;

    closed spec fn view(&self) -> Seq<char> {
        self.0@
    }
}

/// The result `Name::new` gives for the text `s`: which error, if any.
pub open spec fn name_result_spec(s: Seq<char>, r: Result<Name, NameError>) -> bool {
    match r {
        Ok(n) => n@ == s && ident_valid(s, true),
        Err(NameError::Empty) => ident_scan_spec(s, true, IdentScan::Empty),
        Err(NameError::InvalidStart { name }) => name@ == s && ident_scan_spec(
            s,
            true,
            IdentScan::BadStart,
        ),
        Err(NameError::InvalidChar { name, ch, pos }) => name@ == s && ident_scan_spec(
            s,
            true,
            IdentScan::BadChar { ch, pos },
        ),
    }
}

impl Name {
    /// Create a new `Name`, validating the identifier rules.
    pub fn new(s: &str) -> (r: Result<Self, NameError>)
        ensures
            name_result_spec(s@, r),
    {
        match scan_ident(s, true) {
            IdentScan::Empty => Err(NameError::Empty),
            IdentScan::BadStart => Err(NameError::InvalidStart { name: String::from_str(s) }),
            IdentScan::BadChar { ch, pos } => Err(
                NameError::InvalidChar { name: String::from_str(s), ch, pos },
            ),
            IdentScan::Valid => Ok(Name(String::from_str(s))),
        }
    }

    /// The text, as an owned string (what `Display` writes).
    pub fn to_text(&self) -> (r: String)
        ensures
            r@ == self@,
    {
        self.0.clone()
    }

    /// The identifier as a string slice.
    pub fn as_str(&self) -> (r: &str)
        ensures
            r@ == self@,
    {
        self.0.as_str()
    }
}

impl Label for Name {
    fn text(&self) -> (r: &str) {
        self.as_str()
    }

    fn same(&self, other: &Self) -> (r: bool) {
        self.0 == other.0
    }

    fn dup(&self) -> (r: Self)
        ensures
            r == *self,
    {
        Name(self.0.clone())
    }
}

} // verus!
