//! Wall-clock timestamps, held as RFC 3339 text in UTC with nanosecond
//! precision (the on-disk form).

use vstd::prelude::*;

verus! {

/// A wall-clock timestamp, as RFC 3339 text in UTC (`…Z`).
#[derive(Debug, PartialEq, Eq, PartialOrd, Ord, Hash)]
pub struct Timestamp {
    rfc3339: String,
}

impl View for Timestamp {
    type V = Seq<char>;

    closed spec fn view(&self) -> Seq<char> {
        self.rfc3339@
    }
}

impl Clone for Timestamp {
    /// A copy of the same instant.
    fn clone(&self) -> (r: Self)
        ensures
            r == *self,
    {
        Timestamp { rfc3339: self.rfc3339.clone() }
    }
}

/// The normal UTC form of an RFC 3339 text, or `None` when the text is
/// not RFC 3339.
pub uninterp spec fn rfc3339_utc(text: Seq<char>) -> Option<Seq<char>>;

/// The current wall-clock time, as RFC 3339 text in UTC with
/// nanoseconds: `std::time::SystemTime::now`, converted by chrono's
/// `From<SystemTime> for DateTime<Utc>` and written by
/// `DateTime::to_rfc3339_opts` with `use_z`.
///
/// The text ends in the UTC designator `Z`. When the year lies in
/// 0000..=9999 chrono writes it as four digits, so the text does not
/// start with a sign; such a text is already in the normal UTC form,
/// and parsing it and rendering it again gives it back. Outside that
/// range chrono writes a signed year (`+10000-…`), which its RFC 3339
/// parser refuses, so nothing is said of reading it back. Which instant
/// the text names depends on the clock; the conversion panics only for a
/// clock outside chrono's representable range (about 262,000 years from
/// year 0), which is not said either.
#[verifier::external_body]
fn utc_now_text() -> (s: String)
    ensures
        s@.len() > 0,
        s@.last() == 'Z',
        s@[0] != '+' && s@[0] != '-' ==> rfc3339_utc(s@) == Some(s@),
{
    chrono::DateTime::<chrono::Utc>::from(std::time::SystemTime::now())
        .to_rfc3339_opts(chrono::SecondsFormat::Nanos, true)
}

/// Parse RFC 3339 text and render it in UTC with nanoseconds
/// (`chrono::DateTime::parse_from_rfc3339`, `with_timezone(&Utc)` and
/// `to_rfc3339_opts`).
///
/// The result is named, not stated: it is `rfc3339_utc` of the input.
#[verifier::external_body]
fn normalize_rfc3339(text: &str) -> (r: Option<String>)
    ensures
        match r {
            Some(s) => rfc3339_utc(text@) == Some(s@),
            None => rfc3339_utc(text@) is None,
        },
{
    match chrono::DateTime::parse_from_rfc3339(text) {
        Ok(dt) => Some(
            dt.with_timezone(&chrono::Utc).to_rfc3339_opts(chrono::SecondsFormat::Nanos, true),
        ),
        Err(_) => None,
    }
}

impl Timestamp {
    /// Capture the current wall-clock time; its text ends in `Z`, and for
    /// a year in 0000..=9999 (no sign in front) it is in normal UTC form,
    /// so parsing it gives the same timestamp back.
    pub fn now() -> (t: Self)
        ensures
            t@.len() > 0,
            t@.last() == 'Z',
            t@[0] != '+' && t@[0] != '-' ==> rfc3339_utc(t@) == Some(t@),
    {
        Timestamp { rfc3339: utc_now_text() }
    }

    /// Parse an RFC 3339 timestamp in any offset, keeping it in UTC.
    pub fn parse(text: &str) -> (r: Option<Self>)
        ensures
            match r {
                Some(t) => rfc3339_utc(text@) == Some(t@),
                None => rfc3339_utc(text@) is None,
            },
    {
        match normalize_rfc3339(text) {
            Some(s) => Some(Timestamp { rfc3339: s }),
            None => None,
        }
    }

    /// The RFC 3339 text, in UTC.
    pub fn as_str(&self) -> (r: &str)
        ensures
            r@ == self@,
    {
        self.rfc3339.as_str()
    }
}

} // verus!
