//! Instants and spans of time as plain integers, and the calls into `chrono`
//! and `std::time` that the engine makes.
use crate::error;
use crate::error::AwaError;
use std::time::Duration;
use vstd::prelude::*;
use vstd::string::*;

verus! {

/// The first second that a timestamp can hold: -262143-01-01T00:00:00Z.
pub const MIN_SECS: i64 = -8_334_601_228_800;

/// The last second that a timestamp can hold: 262142-12-31T23:59:59Z.
pub const MAX_SECS: i64 = 8_210_266_876_799;

pub const NANOS_PER_SEC: u32 = 1_000_000_000;

/// A UTC instant: whole seconds since the Unix epoch and nanoseconds within
/// the second. A leap second is held as the second before it with a nanosecond
/// part of one second or more.
#[derive(Debug, Clone, Copy, PartialEq, Eq, Structural)]
pub struct Timestamp {
    pub secs: i64,
    pub nanos: u32,
}

impl Timestamp {
    /// The instant can be written out as a calendar date and time.
    pub open spec fn valid(self) -> bool {
        &&& MIN_SECS <= self.secs <= MAX_SECS
        &&& self.nanos < 2_000_000_000
        &&& self.nanos >= NANOS_PER_SEC ==> self.secs % 60 == 59
    }

    /// The instant in nanoseconds since the Unix epoch.
    pub open spec fn total(self) -> int {
        self.secs * 1_000_000_000 + self.nanos
    }

    /// The instant lies in a leap second.
    pub open spec fn is_leap(self) -> bool {
        self.nanos >= NANOS_PER_SEC
    }

    /// The sequence by which instants are ordered.
    pub open spec fn rank(self) -> Seq<int> {
        seq![self.secs as int, self.nanos as int]
    }

    /// `self` is at or before `other`.
    pub open spec fn le(self, other: Timestamp) -> bool {
        self.secs < other.secs || (self.secs == other.secs && self.nanos <= other.nanos)
    }

    /// Whether `self` is at or before `other`.
    pub fn at_or_before(self, other: Timestamp) -> (r: bool)
        ensures
            r == self.le(other),
    {
        self.secs < other.secs || (self.secs == other.secs && self.nanos <= other.nanos)
    }

    /// Whether `self` is strictly after `other`.
    pub fn after(self, other: Timestamp) -> (r: bool)
        ensures
            r == !self.le(other),
    {
        !self.at_or_before(other)
    }
}

/// Whole seconds of a `Duration`.
pub uninterp spec fn duration_secs(duration: Duration) -> u64;

/// Nanoseconds of a `Duration` beyond its whole seconds.
pub uninterp spec fn duration_nanos(duration: Duration) -> u32;

/// Calls `Duration::as_secs`, the number of whole seconds.
#[verifier::external_body]
fn duration_as_secs(duration: Duration) -> (r: u64)
    ensures
        r == duration_secs(duration),
{
    duration.as_secs()
}

/// Calls `Duration::subsec_nanos`, the rest below a second in nanoseconds.
#[verifier::external_body]
fn duration_subsec_nanos(duration: Duration) -> (r: u32)
    ensures
        r == duration_nanos(duration),
        r < 1_000_000_000,
{
    duration.subsec_nanos()
}

/// A non-negative span of time.
#[derive(Debug, Clone, Copy, PartialEq, Eq, Structural)]
pub struct Span {
    pub secs: u64,
    pub nanos: u32,
}

impl Span {
    pub open spec fn wf(self) -> bool {
        self.nanos < NANOS_PER_SEC
    }

    /// The span in nanoseconds.
    pub open spec fn total(self) -> int {
        self.secs * 1_000_000_000 + self.nanos
    }

    /// The span that a `Duration` measures.
    pub open spec fn of_duration(duration: Duration) -> Span {
        Span { secs: duration_secs(duration), nanos: duration_nanos(duration) }
    }

    /// The span fits a signed 64-bit count of milliseconds, which is what the
    /// calendar arithmetic can carry.
    pub open spec fn representable(self) -> bool {
        self.total() <= 9_223_372_036_854_775_807_000_000
    }

    /// The span that `duration` measures.
    pub fn from_duration(duration: Duration) -> (r: Span)
        ensures
            r == Span::of_duration(duration),
            r.wf(),
    {
        Span { secs: duration_as_secs(duration), nanos: duration_subsec_nanos(duration) }
    }

    pub fn is_zero(self) -> (r: bool)
        ensures
            r == (self.total() == 0),
    {
        self.secs == 0 && self.nanos == 0
    }

    /// The span in whole milliseconds, rounded down.
    pub fn as_millis(self) -> (r: u128)
        requires
            self.wf(),
        ensures
            r == self.total() / 1_000_000,
    {
        self.secs as u128 * 1000 + (self.nanos / 1_000_000) as u128
    }

    /// Half the span, rounded down to a nanosecond.
    pub open spec fn halved(self) -> Span {
        let total = self.total() / 2;
        Span { secs: (total / 1_000_000_000) as u64, nanos: (total % 1_000_000_000) as u32 }
    }

    /// Half the span.
    pub fn half(self) -> (r: Span)
        requires
            self.wf(),
        ensures
            r.wf(),
            r == self.halved(),
    {
        let odd: u32 = (self.secs % 2) as u32;
        Span { secs: self.secs / 2, nanos: (odd * 500_000_000) + self.nanos / 2 }
    }

    /// Whether the calendar arithmetic can carry the span. Asks
    /// `TimeDelta::from_std`.
    pub fn is_representable(self) -> (r: bool)
        requires
            self.wf(),
        ensures
            r == self.representable(),
    {
        time_delta_from_std(self.secs, self.nanos).is_ok()
    }
}

/// The text of `chrono::OutOfRangeError`.
pub open spec fn span_out_of_range_text() -> Seq<char> {
    "Source duration value is out of range for the target type"@
}

/// Calls `TimeDelta::from_std` on a duration of the given parts. It accepts
/// what is at most `i64::MAX` milliseconds, and otherwise fails with
/// `OutOfRangeError`, whose text is handed out.
#[verifier::external_body]
pub(crate) fn time_delta_from_std(secs: u64, nanos: u32) -> (r: Result<(), String>)
    requires
        nanos < 1_000_000_000,
    ensures
        r is Ok <==> secs * 1_000_000_000 + nanos <= 9_223_372_036_854_775_807_000_000,
        r matches Err(text) ==> text@ == span_out_of_range_text(),
{
    match chrono::TimeDelta::from_std(Duration::new(secs, nanos)) {
        Ok(_) => Ok(()),
        Err(err) => Err(err.to_string()),
    }
}

/// The RFC 3339 text of an instant, as `chrono` writes it.
pub uninterp spec fn rfc3339_text(secs: i64, nanos: u32) -> Seq<char>;

/// Calls `DateTime::<Utc>::to_rfc3339` on the instant. The instant is built
/// with `DateTime::from_timestamp`, which gives a date and time for every
/// instant in the calendar's range.
#[verifier::external_body]
pub(crate) fn timestamp_rfc3339(at: Timestamp) -> (r: String)
    requires
        at.valid(),
    ensures
        r@ == rfc3339_text(at.secs, at.nanos),
{
    chrono::DateTime::from_timestamp(at.secs, at.nanos).expect("instant in range").to_rfc3339()
}

/// The instant that many nanoseconds after the Unix epoch, on the ordinary clock.
pub open spec fn ordinary(total: int) -> Timestamp {
    Timestamp { secs: (total / 1_000_000_000) as i64, nanos: (total % 1_000_000_000) as u32 }
}

/// The span leads from `at` to an instant in the same leap second.
pub open spec fn stays_in_leap(at: Timestamp, span: Span) -> bool {
    at.is_leap() && span.secs == 0 && at.nanos + span.nanos < 2_000_000_000
}

/// The instant in nanoseconds, a leap second taken as the second before it.
pub open spec fn total_without_leap(at: Timestamp) -> int {
    if at.is_leap() {
        at.total() - 1_000_000_000
    } else {
        at.total()
    }
}

/// The instant `span` after `at`. A leap second that is left behind has taken no
/// time.
pub open spec fn ahead(at: Timestamp, span: Span) -> Timestamp {
    if stays_in_leap(at, span) {
        Timestamp { secs: at.secs, nanos: (at.nanos + span.nanos) as u32 }
    } else {
        ordinary(total_without_leap(at) + span.total())
    }
}

/// The instant `span` before `at`. A leap second takes its second, but for a span
/// of less than one, which only goes back within the two.
pub open spec fn behind(at: Timestamp, span: Span) -> Timestamp {
    if at.is_leap() && span.secs == 0 {
        Timestamp { secs: at.secs, nanos: (at.nanos - span.nanos) as u32 }
    } else {
        ordinary(at.total() - span.total())
    }
}

/// The calendar reaches `span` after `at`.
pub open spec fn reaches_after(at: Timestamp, span: Span) -> bool {
    stays_in_leap(at, span) || total_without_leap(at) + span.total() < (MAX_SECS + 1)
        * 1_000_000_000
}

/// The calendar reaches `span` before `at`.
pub open spec fn reaches_before(at: Timestamp, span: Span) -> bool {
    (at.is_leap() && span.secs == 0) || at.total() - span.total() >= MIN_SECS * 1_000_000_000
}

/// The instant `span` after `at`, when the calendar reaches that far.
pub fn checked_add(at: Timestamp, span: Span) -> (r: Option<Timestamp>)
    requires
        at.valid(),
        span.wf(),
    ensures
        match r {
            Some(t) => reaches_after(at, span) && t == ahead(at, span) && t.valid(),
            None => !reaches_after(at, span),
        },
{
    let leap = at.nanos >= NANOS_PER_SEC;
    if leap && span.secs == 0 && at.nanos + span.nanos < 2_000_000_000 {
        return Some(Timestamp { secs: at.secs, nanos: at.nanos + span.nanos });
    }
    let base: u32 = if leap {
        at.nanos - NANOS_PER_SEC
    } else {
        at.nanos
    };
    let nanos: u32 = base + span.nanos;
    let carry: i128 = if nanos >= NANOS_PER_SEC {
        1
    } else {
        0
    };
    let secs: i128 = at.secs as i128 + span.secs as i128 + carry;
    if secs > MAX_SECS as i128 {
        None
    } else {
        let rest: u32 = if nanos >= NANOS_PER_SEC {
            nanos - NANOS_PER_SEC
        } else {
            nanos
        };
        Some(Timestamp { secs: secs as i64, nanos: rest })
    }
}

/// The instant `span` before `at`, when the calendar reaches that far back.
pub fn checked_sub(at: Timestamp, span: Span) -> (r: Option<Timestamp>)
    requires
        at.valid(),
        span.wf(),
    ensures
        match r {
            Some(t) => reaches_before(at, span) && t == behind(at, span) && t.valid(),
            None => !reaches_before(at, span),
        },
{
    let leap = at.nanos >= NANOS_PER_SEC;
    if leap && span.secs == 0 {
        return Some(Timestamp { secs: at.secs, nanos: at.nanos - span.nanos });
    }
    let base_secs: i128 = if leap {
        at.secs as i128 + 1
    } else {
        at.secs as i128
    };
    let base: u32 = if leap {
        at.nanos - NANOS_PER_SEC
    } else {
        at.nanos
    };
    let borrow: i128 = if base < span.nanos {
        1
    } else {
        0
    };
    let secs: i128 = base_secs - span.secs as i128 - borrow;
    if secs < MIN_SECS as i128 {
        None
    } else {
        let rest: u32 = if base < span.nanos {
            base + NANOS_PER_SEC - span.nanos
        } else {
            base - span.nanos
        };
        Some(Timestamp { secs: secs as i64, nanos: rest })
    }
}

/// The instant `span` after `at`; a span that the calendar arithmetic cannot
/// carry is refused under the given label.
pub fn later(at: Timestamp, span: Span, label: &str) -> (r: Result<Timestamp, AwaError>)
    requires
        at.valid(),
        span.wf(),
        span.representable() ==> reaches_after(at, span),
    ensures
        match r {
            Ok(t) => span.representable() && t == ahead(at, span) && t.valid(),
            Err(err) => !span.representable() && error::is_validation(
                err,
                label@ + ": "@ + span_out_of_range_text(),
            ),
        },
{
    match time_delta_from_std(span.secs, span.nanos) {
        Err(text) => Err(
            AwaError::Validation(label.to_owned().concat(": ").concat(text.as_str())),
        ),
        Ok(_) => match checked_add(at, span) {
            Some(t) => Ok(t),
            None => Ok(at),
        },
    }
}

/// The instant `span` before `at`; a span that the calendar arithmetic cannot
/// carry is refused under the given label.
pub fn earlier(at: Timestamp, span: Span, label: &str) -> (r: Result<Timestamp, AwaError>)
    requires
        at.valid(),
        span.wf(),
        span.representable() ==> reaches_before(at, span),
    ensures
        match r {
            Ok(t) => span.representable() && t == behind(at, span) && t.valid(),
            Err(err) => !span.representable() && error::is_validation(
                err,
                label@ + ": "@ + span_out_of_range_text(),
            ),
        },
{
    match time_delta_from_std(span.secs, span.nanos) {
        Err(text) => Err(
            AwaError::Validation(label.to_owned().concat(": ").concat(text.as_str())),
        ),
        Ok(_) => match checked_sub(at, span) {
            Some(t) => Ok(t),
            None => Ok(at),
        },
    }
}

} // verus!
