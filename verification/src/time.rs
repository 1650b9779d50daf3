//! Instants and spans of time.
use vstd::prelude::*;

verus! {

/// Nanoseconds in a second.
pub const NANOS_PER_SECOND: i128 = 1_000_000_000;

/// The earliest instant that can be told, in nanoseconds from the Unix epoch.
pub const MIN_NANOS: i128 = -377_705_023_201_000_000_000;

/// The latest instant that can be told, in nanoseconds from the Unix epoch.
pub const MAX_NANOS: i128 = 253_402_207_200_999_999_999;

/// The longest span, in seconds, that can be added to an instant.
pub const MAX_SPAN_SECONDS: u64 = 631_107_417_600;

/// An instant, counted in nanoseconds from the Unix epoch.
#[derive(Debug, Clone, Copy, PartialEq, Eq, Structural)]
pub struct Timestamp {
    pub nanos: i128,
}

/// The text of an instant as `jiff` prints it, such as `2024-01-01T00:00:00Z`.
pub uninterp spec fn timestamp_text(nanos: i128) -> Seq<char>;

impl Timestamp {
    /// The instant lies within the range that can be told.
    pub open spec fn wf(self) -> bool {
        MIN_NANOS <= self.nanos <= MAX_NANOS
    }

    /// The instant now, read by `jiff::Timestamp::now`. Nothing is claimed of
    /// it but that it lies within the range of `jiff::Timestamp`.
    #[verifier::external_body]
    pub(crate) fn now() -> (out: Timestamp)
        ensures
            out.wf(),
    {
        Timestamp { nanos: jiff::Timestamp::now().as_nanosecond() }
    }

    /// The instant `seconds` later, computed by `jiff`'s `Timestamp + Span`:
    /// the nanoseconds of `seconds` are added. `jiff` panics where the span or
    /// the sum is out of its range, so the precondition leaves those out.
    #[verifier::external_body]
    pub(crate) fn plus_seconds(self, seconds: u64) -> (out: Timestamp)
        requires
            self.wf(),
            seconds <= MAX_SPAN_SECONDS,
            self.nanos + seconds * NANOS_PER_SECOND <= MAX_NANOS,
        ensures
            out.nanos == self.nanos + seconds * NANOS_PER_SECOND,
    {
        let at = jiff::Timestamp::from_nanosecond(self.nanos).unwrap();
        let sum = at + jiff::Span::new().seconds(seconds as i64);
        Timestamp { nanos: sum.as_nanosecond() }
    }

    /// The text of the instant, as `jiff::Timestamp` is displayed.
    #[verifier::external_body]
    pub(crate) fn text(self) -> (out: String)
        requires
            self.wf(),
        ensures
            out@ == timestamp_text(self.nanos),
    {
        jiff::Timestamp::from_nanosecond(self.nanos).unwrap().to_string()
    }
}

/// A span of whole seconds.
#[derive(Debug, Clone, Copy, PartialEq, Eq, Structural)]
pub struct Duration {
    pub secs: u64,
}

impl Duration {
    /// A span of `secs` seconds.
    pub fn from_secs(secs: u64) -> (out: Duration)
        ensures
            out.secs == secs,
    {
        Duration { secs }
    }

    /// The seconds of this span.
    pub fn as_secs(&self) -> (out: u64)
        ensures
            out == self.secs,
    {
        self.secs
    }
}

} // verus!
