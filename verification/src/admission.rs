//! The admission policy: which tempo samples are worth keeping.
//!
//! A steady tempo leaves one entry per window; every change of tempo is kept at once.

use crate::time::{nanos_between, Timestamp, NANOS_PER_SECOND};
use vstd::prelude::*;

verus! {

/// Minutes after which a sample with an unchanged tempo is kept again.
pub const ADMISSION_WINDOW_MINUTES: u32 = 5;

/// A stored tempo reading: the tempo and the time at which it was logged.
#[derive(Clone, Copy, Debug, PartialEq, Eq, Structural)]
pub struct LogSample {
    pub bpm: i64,
    pub timestamp: Timestamp,
}

/// The admission window in nanoseconds.
pub open spec fn window_nanos() -> int {
    ADMISSION_WINDOW_MINUTES * 60 * NANOS_PER_SECOND
}

/// Whether a sample of `current_bpm` taken at `now` is kept, given the latest stored
/// entry of the piece: always where there is none; otherwise where the tempo
/// differs or more than the window has passed since that entry.
pub open spec fn admits(current_bpm: i64, now: Timestamp, previous: Option<LogSample>) -> bool {
    match previous {
        None => true,
        Some(last) => current_bpm != last.bpm || nanos_between(now, last.timestamp)
            > window_nanos(),
    }
}

/// Decides whether the sample is to be logged.
pub fn should_log(current_bpm: i64, now: Timestamp, previous: Option<LogSample>) -> (log: bool)
    ensures
        log == admits(current_bpm, now, previous),
{
    match previous {
        None => true,
        Some(last) => {
            current_bpm != last.bpm || now.elapsed_since(&last.timestamp).exceeds_minutes(
                ADMISSION_WINDOW_MINUTES,
            )
        },
    }
}

/// The first sample of a piece is always kept.
pub proof fn lemma_first_sample_admitted(current_bpm: i64, now: Timestamp)
    ensures
        admits(current_bpm, now, None),
{
}

/// A sample whose tempo differs from the latest entry is kept, however little
/// time has passed.
pub proof fn lemma_changed_tempo_admitted(current_bpm: i64, now: Timestamp, last: LogSample)
    requires
        current_bpm != last.bpm,
    ensures
        admits(current_bpm, now, Some(last)),
{
}

/// A sample with the tempo of the latest entry is kept exactly when more than
/// five minutes lie between the two: not after four minutes, but after six.
pub proof fn lemma_unchanged_tempo_waits_for_window(now: Timestamp, last: LogSample)
    ensures
        admits(last.bpm, now, Some(last)) <==> nanos_between(now, last.timestamp) > 300
            * NANOS_PER_SECOND,
        nanos_between(now, last.timestamp) == 240 * NANOS_PER_SECOND ==> !admits(
            last.bpm,
            now,
            Some(last),
        ),
        nanos_between(now, last.timestamp) == 360 * NANOS_PER_SECOND ==> admits(
            last.bpm,
            now,
            Some(last),
        ),
{
}

} // verus!
