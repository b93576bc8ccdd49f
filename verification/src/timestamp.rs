//! The moment a page was fetched, kept as a UNIX timestamp together with the
//! text under which it is stored.

use vstd::prelude::*;

verus! {

/// The text that chrono writes for the UTC date and time `secs` seconds and
/// `nanos` nanoseconds after the UNIX epoch (`NaiveDateTime`'s `Display`,
/// such as `2015-05-15 00:00:00`), or `None` where chrono has no such date.
pub uninterp spec fn utc_naive_text(secs: i64, nanos: u32) -> Option<Seq<char>>;

/// Calls `chrono::DateTime::from_timestamp(secs, nanos)` and, where it gives a
/// date, writes `naive_utc()` of it with `to_string()`.  Claimed: the result
/// is `utc_naive_text(secs, nanos)`, `None` exactly where chrono gives none.
#[verifier::external_body]
fn chrono_utc_text(secs: i64, nanos: u32) -> (r: Option<String>)
    ensures
        r is Some <==> utc_naive_text(secs, nanos) is Some,
        r matches Some(t) ==> utc_naive_text(secs, nanos) == Some(t@),
{
    match chrono::DateTime::from_timestamp(secs, nanos) {
        Some(dt) => Some(dt.naive_utc().to_string()),
        None => None,
    }
}

/// A UTC date and time, given by seconds and nanoseconds since the UNIX epoch.
pub struct Timestamp {
    secs: i64,
    nanos: u32,
    text: String,
}

impl View for Timestamp {
    type V = (i64, u32);

    closed spec fn view(&self) -> (i64, u32) {
        (self.secs, self.nanos)
    }
}

/// Whether chrono knows the date `t` stands for.
pub open spec fn is_valid_timestamp(t: (i64, u32)) -> bool {
    utc_naive_text(t.0, t.1) is Some
}

/// The text of the date `t` stands for.
pub open spec fn timestamp_text(t: (i64, u32)) -> Seq<char> {
    utc_naive_text(t.0, t.1)->0
}

impl Timestamp {
    #[verifier::type_invariant]
    closed spec fn well_formed(self) -> bool {
        utc_naive_text(self.secs, self.nanos) == Some(self.text@)
    }

    /// The timestamp `secs` seconds and `nanos` nanoseconds after the UNIX
    /// epoch, or `None` where chrono has no such date.
    pub fn from_unix(secs: i64, nanos: u32) -> (r: Option<Timestamp>)
        ensures
            r is Some <==> is_valid_timestamp((secs, nanos)),
            r matches Some(t) ==> t@ == (secs, nanos),
    {
        match chrono_utc_text(secs, nanos) {
            Some(text) => Some(Timestamp { secs, nanos, text }),
            None => None,
        }
    }

    /// Seconds since the UNIX epoch.
    pub fn secs(&self) -> (r: i64)
        ensures
            r == self@.0,
    {
        self.secs
    }

    /// Nanoseconds past `secs`.
    pub fn nanos(&self) -> (r: u32)
        ensures
            r == self@.1,
    {
        self.nanos
    }

    /// The text of the date, as the crawler stores it.
    pub fn to_text(&self) -> (r: String)
        ensures
            is_valid_timestamp(self@),
            r@ == timestamp_text(self@),
    {
        proof {
            use_type_invariant(self);
        }
        self.text.clone()
    }
}

} // verus!
