//! Instants and the spans between them.
//!
//! An instant is kept as plain numbers: whole seconds since the Unix epoch and the
//! nanoseconds past that second. The calendar work (which instants exist, the span
//! from one to another, the text of an instant) is done by chrono.

use chrono::{DateTime, Utc};
use vstd::prelude::*;

verus! {

/// Nanoseconds in one second.
pub const NANOS_PER_SECOND: i64 = 1_000_000_000;

/// Seconds in one day.
pub const SECONDS_PER_DAY: i64 = 86_400;

/// Whether chrono's `DateTime::from_timestamp(secs, nanos)` yields a date and time.
pub uninterp spec fn representable(secs: int, nanos: int) -> bool;

/// The text that chrono's `NaiveDateTime::format` writes for the instant
/// (`secs`, `nanos`) under `pattern`, or `None` where the instant is not
/// representable or the pattern cannot be applied to it.
pub uninterp spec fn formatted(secs: int, nanos: int, pattern: Seq<char>) -> Option<Seq<char>>;

/// A date and time without a zone: seconds since 1970-01-01 00:00:00 and the
/// nanoseconds past that second. Inside a leap second the nanoseconds run from
/// 1_000_000_000 up.
#[derive(Clone, Copy, Debug, PartialEq, Eq, Structural)]
pub struct Timestamp {
    secs: i64,
    nanos: u32,
}

/// A signed span of time: `secs` whole seconds and `nanos` further nanoseconds.
#[derive(Clone, Copy, Debug, PartialEq, Eq, Structural)]
pub struct Span {
    pub secs: i64,
    pub nanos: i32,
}

impl Span {
    /// The span in nanoseconds.
    pub open spec fn total_nanos(self) -> int {
        self.secs * NANOS_PER_SECOND + self.nanos
    }

    /// The span is written in the one way that has `nanos` below a second and of
    /// the sign of the whole.
    pub open spec fn canonical(self) -> bool {
        &&& -NANOS_PER_SECOND < self.nanos < NANOS_PER_SECOND
        &&& self.total_nanos() >= 0 ==> self.nanos >= 0
        &&& self.total_nanos() < 0 ==> self.nanos <= 0
    }

    /// Whether the span is longer than `minutes` minutes.
    pub fn exceeds_minutes(&self, minutes: u32) -> (longer: bool)
        ensures
            longer == (self.total_nanos() > minutes * 60 * NANOS_PER_SECOND),
    {
        let secs: i128 = self.secs as i128;
        let per_minute: i128 = 60 * (NANOS_PER_SECOND as i128);
        assert(-0x8000_0000_0000_0000 * 1_000_000_000 <= secs * 1_000_000_000
            <= 0x8000_0000_0000_0000 * 1_000_000_000) by (nonlinear_arith)
            requires
                -0x8000_0000_0000_0000 <= secs <= 0x8000_0000_0000_0000,
        ;
        assert(0 <= minutes * 60_000_000_000 <= 0x1_0000_0000 * 60_000_000_000)
            by (nonlinear_arith)
            requires
                0 <= minutes <= 0x1_0000_0000,
        ;
        let total: i128 = secs * (NANOS_PER_SECOND as i128) + (self.nanos as i128);
        let limit: i128 = (minutes as i128) * per_minute;
        total > limit
    }
}

/// The second within its day at which the timestamp second `secs` falls.
pub open spec fn second_of_day(secs: int) -> int {
    secs % (SECONDS_PER_DAY as int)
}

/// The span from `earlier` to `later` in nanoseconds.
///
/// It is the plain difference of the two readings, but for an end that stands
/// inside a leap second: where the earlier end does, and the later end falls later
/// in its day, the leap second is counted in; where the later end does, and it
/// falls earlier in its day, one second is taken off.
pub open spec fn nanos_between(later: Timestamp, earlier: Timestamp) -> int {
    let leap: int = if second_of_day(later.secs() as int) > second_of_day(earlier.secs() as int)
        && earlier.nanos() >= NANOS_PER_SECOND {
        1
    } else if second_of_day(later.secs() as int) < second_of_day(earlier.secs() as int)
        && later.nanos() >= NANOS_PER_SECOND {
        -1
    } else {
        0
    };
    (later.secs() - earlier.secs() + leap) * NANOS_PER_SECOND + (later.nanos() - earlier.nanos())
}

/// Asks chrono's `DateTime::from_timestamp` whether it accepts the reading.
/// The answer is the value of `representable`.
#[verifier::external_body]
fn chrono_accepts(secs: i64, nanos: u32) -> (accepted: bool)
    ensures
        accepted == representable(secs as int, nanos as int),
{
    DateTime::from_timestamp(secs, nanos).is_some()
}

/// Calls chrono's `NaiveDateTime::signed_duration_since` on the two instants and
/// hands back the span's `num_seconds` and `subsec_nanos`.
///
/// The span is there exactly when chrono can hold both instants. It is the
/// difference of the dates in seconds plus the difference of the times of day,
/// which is `nanos_between`; chrono reports it with the nanoseconds below one
/// second and of the sign of the whole.
#[verifier::external_body]
fn chrono_signed_duration(later: &Timestamp, earlier: &Timestamp) -> (span: Option<Span>)
    ensures
        match span {
            Some(s) => {
                &&& later.is_valid()
                &&& earlier.is_valid()
                &&& s.total_nanos() == nanos_between(*later, *earlier)
                &&& s.canonical()
            },
            None => !(later.is_valid() && earlier.is_valid()),
        },
{
    let end = DateTime::from_timestamp(later.secs, later.nanos)?.naive_utc();
    let start = DateTime::from_timestamp(earlier.secs, earlier.nanos)?.naive_utc();
    let delta = end.signed_duration_since(start);
    Some(Span { secs: delta.num_seconds(), nanos: delta.subsec_nanos() })
}

/// Calls chrono's `NaiveDateTime::format` with `pattern` and collects what
/// `DelayedFormat::write_to` writes. The outcome is the value of `formatted`.
#[verifier::external_body]
fn chrono_format(at: &Timestamp, pattern: &str) -> (text: Option<String>)
    ensures
        match text {
            Some(t) => formatted(at.secs() as int, at.nanos() as int, pattern@) == Some(t@),
            None => formatted(at.secs() as int, at.nanos() as int, pattern@) is None,
        },
{
    let instant = DateTime::from_timestamp(at.secs, at.nanos)?.naive_utc();
    let mut text = String::new();
    match instant.format(pattern).write_to(&mut text) {
        Ok(()) => Some(text),
        Err(_) => None,
    }
}

/// Reads the clock with chrono's `Utc::now` and keeps its `timestamp` and
/// `timestamp_subsec_nanos`, which chrono promises `from_timestamp` takes back.
/// `Utc::now` panics where the system clock stands before 1970.
#[verifier::external_body]
pub(crate) fn chrono_now() -> (now: Timestamp)
    ensures
        now.is_valid(),
{
    let reading = Utc::now();
    Timestamp { secs: reading.timestamp(), nanos: reading.timestamp_subsec_nanos() }
}

impl Timestamp {
    /// Every timestamp is one that chrono can hold.
    #[verifier::type_invariant]
    pub closed spec fn is_valid(self) -> bool {
        representable(self.secs as int, self.nanos as int)
    }

    /// Whole seconds since the Unix epoch.
    pub closed spec fn spec_secs(self) -> i64 {
        self.secs
    }

    /// Nanoseconds past the whole second.
    pub closed spec fn spec_nanos(self) -> u32 {
        self.nanos
    }

    /// The timestamp with the given reading, where chrono can hold it.
    pub fn new(secs: i64, nanos: u32) -> (made: Option<Timestamp>)
        ensures
            made is Some <==> representable(secs as int, nanos as int),
            made is Some ==> made.unwrap().secs() == secs && made.unwrap().nanos() == nanos,
    {
        if chrono_accepts(secs, nanos) {
            Some(Timestamp { secs, nanos })
        } else {
            None
        }
    }

    /// Whole seconds since the Unix epoch.
    #[verifier::when_used_as_spec(spec_secs)]
    pub fn secs(self) -> (s: i64)
        ensures
            s == self.spec_secs(),
    {
        self.secs
    }

    /// Nanoseconds past the whole second.
    #[verifier::when_used_as_spec(spec_nanos)]
    pub fn nanos(self) -> (n: u32)
        ensures
            n == self.spec_nanos(),
    {
        self.nanos
    }

    /// The span from `earlier` to this instant; negative where `earlier` is the later.
    pub fn elapsed_since(&self, earlier: &Timestamp) -> (span: Span)
        ensures
            span.total_nanos() == nanos_between(*self, *earlier),
            span.canonical(),
    {
        proof {
            use_type_invariant(self);
            use_type_invariant(earlier);
        }
        match chrono_signed_duration(self, earlier) {
            Some(span) => span,
            None => Span { secs: 0, nanos: 0 },
        }
    }

    /// The instant as text under a chrono format pattern such as
    /// `"%Y-%m-%d %H:%M:%S"`; `None` where the pattern cannot be applied.
    pub fn format(&self, pattern: &str) -> (text: Option<String>)
        ensures
            match text {
                Some(t) => formatted(self.secs() as int, self.nanos() as int, pattern@) == Some(t@),
                None => formatted(self.secs() as int, self.nanos() as int, pattern@) is None,
            },
    {
        chrono_format(self, pattern)
    }
}

/// Two timestamps with the same reading are the same timestamp.
pub proof fn lemma_same_reading(a: Timestamp, b: Timestamp)
    requires
        a.secs() == b.secs(),
        a.nanos() == b.nanos(),
    ensures
        a == b,
{
}

} // verus!
