//! Validated runtime worker identity.
//!
//! `WorkerId` is the identity used across the runtime layer: mailbox
//! bundles, orchestrator state, paths and storage records.

use vstd::prelude::*;
use vstd::string::*;

use crate::label::Label;
use crate::num::decimal;
use crate::text::{chars_of, is_digit, is_lower, push_char, push_decimal};

verus! {

/// A validated runtime worker identifier in kebab-case.
///
/// Non-empty, starts with a lowercase ASCII letter, contains only
/// lowercase ASCII letters, digits and hyphens, and does not end with a
/// hyphen.
#[derive(Debug, PartialEq, Eq, PartialOrd, Ord, Hash)]
pub struct WorkerId(String);

impl View for WorkerId {
    type V = Seq<char>;

    closed spec fn view(&self) -> Seq<char> {
        self.0@
    }
}

impl Clone for WorkerId {
    /// A copy holding the same text.
    fn clone(&self) -> (r: Self)
        ensures
            r == *self,
    {
        WorkerId(self.0.clone())
    }
}

/// Errors produced when constructing a [`WorkerId`].
#[derive(Debug, PartialEq, Eq)]
pub enum WorkerIdError {
    /// The worker id was empty.
    Empty,
    /// The first character is not a lowercase ASCII letter.
    InvalidStart { id: String },
    /// The id contained a character outside the kebab-case alphabet, at
    /// byte offset `pos`.
    InvalidChar { id: String, ch: char, pos: usize },
    /// The id ends with a hyphen.
    TrailingHyphen { id: String },
}

/// Whether `c` belongs to the kebab-case alphabet.
pub open spec fn kebab_char(c: char) -> bool {
    is_lower(c) || is_digit(c) || c == '-'
}

/// Whether every character before index `k` is in the kebab-case
/// alphabet.
pub open spec fn kebab_upto(s: Seq<char>, k: int) -> bool {
    forall|j: int| 0 <= j < k ==> kebab_char(#[trigger] s[j])
}

/// The worker id rules.
pub open spec fn worker_id_valid(s: Seq<char>) -> bool {
    &&& s.len() > 0
    &&& is_lower(s[0])
    &&& kebab_upto(s, s.len() as int)
    &&& s.last() != '-'
}

/// The result `WorkerId::new` gives for the text `s`: the first rule
/// that fails, in the order empty, start, alphabet, trailing hyphen.
pub open spec fn worker_id_result_spec(s: Seq<char>, r: Result<WorkerId, WorkerIdError>) -> bool {
    match r {
        Ok(w) => w@ == s && worker_id_valid(s),
        Err(WorkerIdError::Empty) => s.len() == 0,
        Err(WorkerIdError::InvalidStart { id }) => id@ == s && s.len() > 0 && !is_lower(s[0]),
        Err(WorkerIdError::InvalidChar { id, ch, pos }) => {
            &&& id@ == s
            &&& s.len() > 0
            &&& is_lower(s[0])
            &&& 0 <= pos < s.len()
            &&& kebab_upto(s, pos as int)
            &&& !kebab_char(s[pos as int])
            &&& ch == s[pos as int]
        },
        Err(WorkerIdError::TrailingHyphen { id }) => {
            &&& id@ == s
            &&& s.len() > 0
            &&& is_lower(s[0])
            &&& kebab_upto(s, s.len() as int)
            &&& s.last() == '-'
        },
    }
}

impl WorkerId {
    /// Construct and validate one worker identifier.
    ///
    /// The reported position is a character index; every character
    /// before it is ASCII, so it is also the byte offset.
    pub fn new(value: &str) -> (r: Result<Self, WorkerIdError>)
        ensures
            worker_id_result_spec(value@, r),
    {
        let cs = chars_of(value);
        if cs.len() == 0 {
            return Err(WorkerIdError::Empty);
        }
        let first = cs[0];
        if !('a' <= first && first <= 'z') {
            return Err(WorkerIdError::InvalidStart { id: String::from_str(value) });
        }
        let mut i: usize = 0;
        while i < cs.len()
            invariant
                i <= cs.len(),
                cs@ == value@,
                value@.len() > 0,
                is_lower(value@[0]),
                kebab_upto(value@, i as int),
            decreases cs.len() - i,
        {
            let c = cs[i];
            if !(('a' <= c && c <= 'z') || ('0' <= c && c <= '9') || c == '-') {
                return Err(WorkerIdError::InvalidChar { id: String::from_str(value), ch: c, pos: i });
            }
            i = i + 1;
        }
        if cs[cs.len() - 1] == '-' {
            return Err(WorkerIdError::TrailingHyphen { id: String::from_str(value) });
        }
        Ok(WorkerId(String::from_str(value)))
    }

    /// The text, as an owned string (what `Display` writes).
    pub fn to_text(&self) -> (r: String)
        ensures
            r@ == self@,
    {
        self.0.clone()
    }

    /// Borrow the worker id as a string slice.
    pub fn as_str(&self) -> (r: &str)
        ensures
            r@ == self@,
    {
        self.0.as_str()
    }
}

impl Label for WorkerId {
    fn text(&self) -> (r: &str) {
        self.as_str()
    }

    fn same(&self, other: &Self) -> (r: bool) {
        self.0 == other.0
    }

    fn dup(&self) -> (r: Self)
        ensures
            r == *self,
    {
        WorkerId(self.0.clone())
    }
}

/// What a [`WorkerIdError`] says.
pub open spec fn worker_id_error_text(e: WorkerIdError) -> Seq<char> {
    match e {
        WorkerIdError::Empty => "worker id is empty"@,
        WorkerIdError::InvalidStart { id } => "worker id `"@ + id@
            + "` must start with a lowercase ASCII letter"@,
        WorkerIdError::InvalidChar { id, ch, pos } => "worker id `"@ + id@
            + "` contains invalid character `"@ + seq![ch] + "` at byte "@ + decimal(pos as nat)
            + "; only lowercase letters, digits, and hyphens are allowed"@,
        WorkerIdError::TrailingHyphen { id } => "worker id `"@ + id@
            + "` must not end with a hyphen"@,
    }
}

impl WorkerIdError {
    /// The message of this error.
    pub fn message(&self) -> (r: String)
        ensures
            r@ == worker_id_error_text(*self),
    {
        match self {
            WorkerIdError::Empty => String::from_str("worker id is empty"),
            WorkerIdError::InvalidStart { id } => {
                let mut s = String::from_str("worker id `");
                s.append(id.as_str());
                s.append("` must start with a lowercase ASCII letter");
                s
            },
            WorkerIdError::InvalidChar { id, ch, pos } => {
                let mut s = String::from_str("worker id `");
                s.append(id.as_str());
                s.append("` contains invalid character `");
                push_char(&mut s, *ch);
                s.append("` at byte ");
                push_decimal(&mut s, *pos);
                s.append("; only lowercase letters, digits, and hyphens are allowed");
                s
            },
            WorkerIdError::TrailingHyphen { id } => {
                let mut s = String::from_str("worker id `");
                s.append(id.as_str());
                s.append("` must not end with a hyphen");
                s
            },
        }
    }
}

} // verus!
