//! Loops that look after a device at regular intervals.
//!
//! All times are in nanoseconds of a clock that never goes back.
use rand::Rng;
use vstd::prelude::*;

use crate::config::ValueScaling;
use crate::device_core::{all_updated, values_written, DeviceRWCore};
use crate::value::{OutputValue, Timestamp};

verus! {

/// The number of nanoseconds in a millisecond.
pub const NANOS_PER_MILLI: u64 = 1_000_000;

/// Delays before the first round are shorter than this many milliseconds.
pub const MAX_DESYNC_MILLIS: u64 = 1000;

/// Takes the values that are to be written, their scalings, and whether any of that is new.
pub fn get_values_and_dirty(core: &mut DeviceRWCore) -> (taken: (
    Vec<OutputValue>,
    Vec<ValueScaling>,
    bool,
))
    requires
        old(core).wf(),
    ensures
        final(core).wf(),
        taken.0@ == old(core).buffered_values@,
        taken.1@ == old(core).scalings@,
        taken.2 == old(core).dirty,
        !final(core).dirty,
        final(core).buffered_values == old(core).buffered_values,
        final(core).scalings == old(core).scalings,
        final(core).read_core == old(core).read_core,
        final(core).last_error == old(core).last_error,
{
    core.take_values()
}

/// How long to sleep until one interval after the last wake-up, and how far behind that the loop
/// is lagging.
pub open spec fn sleep_and_lag(wake_up: u64, polling_interval: u64, now: u64) -> (u64, u64) {
    let next_poll = wake_up + polling_interval;
    if now >= next_poll {
        (0, (now - next_poll) as u64)
    } else {
        ((next_poll - now) as u64, 0)
    }
}

/// Calculates how long to sleep, and by how much the loop is lagging.
pub fn calculate_sleep_duration(wake_up: u64, polling_interval: u64, now: u64) -> (durations: (
    u64,
    u64,
))
    requires
        wake_up + polling_interval <= u64::MAX,
    ensures
        durations == sleep_and_lag(wake_up, polling_interval, now),
{
    let next_poll: u64 = wake_up + polling_interval;
    if now >= next_poll {
        (0, now - next_poll)
    } else {
        (next_poll - now, 0)
    }
}

/// Ends a round: puts its outcome on the ports, and calculates how long to sleep and by how much
/// the loop is lagging.
pub fn poll_loop_end(
    core: &mut DeviceRWCore,
    update_result: Result<(), String>,
    values: Vec<OutputValue>,
    ts: Timestamp,
    wake_up: u64,
    update_interval: u64,
    now: u64,
) -> (durations: (u64, u64))
    requires
        old(core).wf(),
        values@.len() <= old(core).read_core@.len(),
        wake_up + update_interval <= u64::MAX,
    ensures
        durations == sleep_and_lag(wake_up, update_interval, now),
        final(core).wf(),
        final(core).buffered_values == old(core).buffered_values,
        final(core).scalings == old(core).scalings,
        final(core).read_core.alias_text() == old(core).read_core.alias_text(),
        match update_result {
            Ok(_) => {
                &&& final(core).read_core@ == values_written(
                    old(core).read_core@,
                    values@,
                    ts,
                    false,
                    false,
                )
                &&& final(core).dirty == old(core).dirty
                &&& final(core).error_text() == old(core).error_text()
            },
            Err(message) => {
                &&& final(core).read_core@ == all_updated(
                    old(core).read_core@,
                    ts,
                    Err(message@),
                    true,
                    false,
                )
                &&& final(core).dirty
                &&& final(core).error_text() == Some(message@)
            },
        },
{
    match update_result {
        Ok(()) => core.finish_update(Ok(values), ts, false, false),
        Err(message) => core.finish_update(Err(message), ts, false, false),
    }
    calculate_sleep_duration(wake_up, update_interval, now)
}

/// Calls `gen_range` of the thread's generator of `rand` with the range from 0 up to, but not
/// including, `bound`. Which of these numbers comes out is left to chance. The call panics if there
/// is none.
#[verifier::external_body]
fn random_below(bound: u64) -> (number: u64)
    requires
        bound > 0,
    ensures
        number < bound,
{
    rand::thread_rng().gen_range(0..bound)
}

/// The number of nanoseconds in a delay of some milliseconds.
pub fn delay_nanos(millis: u64) -> (nanos: u64)
    requires
        millis * NANOS_PER_MILLI <= u64::MAX,
    ensures
        nanos == millis * NANOS_PER_MILLI,
{
    millis * NANOS_PER_MILLI
}

/// How many nanoseconds to wait before the first round, such that devices of the same kind do not
/// all wake up at the same time: a random number of milliseconds, less than a second. Which one it
/// is, is left to chance.
pub fn desync_delay() -> (nanos: u64)
    ensures
        nanos < 1_000_000_000,
        nanos % NANOS_PER_MILLI == 0,
{
    delay_nanos(random_below(MAX_DESYNC_MILLIS))
}

/// A loop is either asleep or lagging, never both. One that is not lagging wakes up exactly one
/// interval after it did so the last time.
pub proof fn law_wakes_up_once_per_interval(wake_up: u64, polling_interval: u64, now: u64)
    requires
        wake_up + polling_interval <= u64::MAX,
    ensures
        ({
            let (sleep, lag) = sleep_and_lag(wake_up, polling_interval, now);
            &&& sleep == 0 || lag == 0
            &&& now + sleep == wake_up + polling_interval + lag
        }),
{
}

/// A loop that is looked after as soon as it wakes up never sleeps longer than one interval.
pub proof fn law_sleeps_one_interval_at_most(wake_up: u64, polling_interval: u64, now: u64)
    requires
        wake_up + polling_interval <= u64::MAX,
        wake_up <= now,
    ensures
        sleep_and_lag(wake_up, polling_interval, now).0 <= polling_interval,
{
}

} // verus!
