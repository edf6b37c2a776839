//! Instants on the UTC time line, and their RFC 3339 text form.

use vstd::prelude::*;

verus! {

/// An instant: whole seconds since 1970-01-01T00:00:00Z and the nanoseconds
/// past that second.
#[derive(Clone, Copy, Debug, PartialEq, Eq, Hash, Structural)]
pub struct Timestamp {
    pub seconds: i64,
    pub nanos: u32,
}

/// The instant that RFC 3339 text denotes, or `None` where the text is not a
/// valid RFC 3339 date and time.
pub uninterp spec fn rfc3339_instant(text: Seq<char>) -> Option<Timestamp>;

/// The RFC 3339 text of an instant in UTC, with milliseconds and `Z` for the
/// offset, or `None` where the instant cannot be written: its seconds lie
/// outside the range of dates, or its nanoseconds are no part of a second.
pub uninterp spec fn rfc3339_millis(seconds: i64, nanos: u32) -> Option<Seq<char>>;

impl Timestamp {
    /// The instant with the given seconds and nanoseconds.
    pub fn new(seconds: i64, nanos: u32) -> (t: Timestamp)
        ensures
            t == (Timestamp { seconds, nanos }),
    {
        Timestamp { seconds, nanos }
    }

    /// Whole seconds since the epoch.
    pub fn seconds(&self) -> (s: i64)
        ensures
            s == self.seconds,
    {
        self.seconds
    }

    /// Nanoseconds past the whole second.
    pub fn nanos(&self) -> (n: u32)
        ensures
            n == self.nanos,
    {
        self.nanos
    }

    /// The current instant, read from the system clock.
    ///
    /// Calls `chrono::Utc::now` and takes the result apart with
    /// `DateTime::timestamp` and `DateTime::timestamp_subsec_nanos`. Nothing is
    /// claimed of the value: it depends on the clock. `Utc::now` does not
    /// return where the clock is set before 1970.
    #[verifier::external_body]
    pub(crate) fn now() -> Timestamp {
        let now = chrono::Utc::now();
        Timestamp { seconds: now.timestamp(), nanos: now.timestamp_subsec_nanos() }
    }

    /// Parses RFC 3339 text.
    ///
    /// Calls `chrono::DateTime::parse_from_rfc3339` and converts the result to
    /// UTC. The contract only names the result: the same text always denotes
    /// the same instant.
    #[verifier::external_body]
    pub(crate) fn parse_rfc3339(text: &str) -> (r: Option<Timestamp>)
        ensures
            r == rfc3339_instant(text@),
    {
        match chrono::DateTime::parse_from_rfc3339(text) {
            Ok(t) => {
                let utc = t.to_utc();
                Some(Timestamp { seconds: utc.timestamp(), nanos: utc.timestamp_subsec_nanos() })
            },
            Err(_) => None,
        }
    }

    /// Writes the instant as RFC 3339 text in UTC with milliseconds.
    ///
    /// Calls `chrono::DateTime::from_timestamp`, which gives `None` for
    /// seconds out of range or nanoseconds that are no part of a second, and
    /// `DateTime::to_rfc3339_opts` with `SecondsFormat::Millis` and `Z` for
    /// the offset. The contract only names the result: the same instant is
    /// always written the same.
    #[verifier::external_body]
    pub(crate) fn format_rfc3339_millis(&self) -> (r: Option<String>)
        ensures
            match r {
                Some(text) => rfc3339_millis(self.seconds, self.nanos) == Some(text@),
                None => rfc3339_millis(self.seconds, self.nanos) is None,
            },
    {
        match chrono::DateTime::from_timestamp(self.seconds, self.nanos) {
            Some(t) => Some(t.to_rfc3339_opts(chrono::SecondsFormat::Millis, true)),
            None => None,
        }
    }
}

} // verus!
