//! Points in time: BSON timestamps, which count milliseconds, and readings of the system clock,
//! which count nanoseconds.

use std::time::{Duration, SystemTime};
use vstd::prelude::*;

verus! {

/// A BSON timestamp: milliseconds since the Unix epoch, negative before it.
pub type DateTime = i64;

/// How long an order may stay pending, in seconds.
pub const PENDING_TIMEOUT_SECS: u64 = 3600;

pub const NANOS_PER_SEC: u32 = 1_000_000_000;

/// A reading of the system clock, as its distance from the Unix epoch.
#[derive(Clone, Copy, Debug)]
pub struct ClockTime {
    /// Whether the time lies before the epoch.
    pub before_epoch: bool,
    /// Whole seconds of the distance.
    pub secs: u64,
    /// What is left of the distance, in nanoseconds.
    pub nanos: u32,
}

impl ClockTime {
    /// Whether the system clock can show this time.
    pub open spec fn valid(self) -> bool {
        &&& self.nanos < NANOS_PER_SEC
        &&& self.secs <= i64::MAX
    }

    /// The distance from the epoch in nanoseconds.
    pub open spec fn distance(self) -> nat {
        (self.secs * NANOS_PER_SEC + self.nanos) as nat
    }

    /// Nanoseconds since the epoch, negative before it.
    pub open spec fn since_epoch(self) -> int {
        if self.before_epoch {
            -(self.distance() as int)
        } else {
            self.distance() as int
        }
    }

    /// Tells whether the system clock can show this time.
    pub fn is_valid(&self) -> (valid: bool)
        ensures
            valid == self.valid(),
    {
        self.nanos < NANOS_PER_SEC && self.secs <= i64::MAX as u64
    }

    /// Computes the nanoseconds since the epoch.
    fn nanos_since_epoch(&self) -> (nanos: i128)
        requires
            self.valid(),
        ensures
            nanos == self.since_epoch(),
    {
        assert(self.secs * NANOS_PER_SEC <= i64::MAX * 1_000_000_000) by (nonlinear_arith)
            requires
                0 <= self.secs <= i64::MAX,
                NANOS_PER_SEC == 1_000_000_000,
        ;
        let distance: i128 = self.secs as i128 * NANOS_PER_SEC as i128 + self.nanos as i128;
        if self.before_epoch {
            -distance
        } else {
            distance
        }
    }
}

/// The BSON timestamp of a point in time, which is given in nanoseconds since the epoch: the
/// milliseconds that lie in full between it and the epoch; the latest or the earliest timestamp
/// where that is out of range.
pub open spec fn timestamp_at(nanos: int) -> int {
    if nanos >= 0 {
        if nanos / 1_000_000 > i64::MAX {
            i64::MAX as int
        } else {
            nanos / 1_000_000
        }
    } else {
        if -nanos / 1_000_000 > i64::MAX {
            i64::MIN as int
        } else {
            -(-nanos / 1_000_000)
        }
    }
}

/// The BSON timestamp of a clock reading.
pub open spec fn timestamp_of(time: ClockTime) -> int {
    timestamp_at(time.since_epoch())
}

/// Calls `bson::DateTime::to_system_time`: the clock time that lies as many milliseconds from the
/// epoch, on the same side of it.
///
/// Assumes a platform whose `SystemTime` holds seconds as a signed 64-bit number, as Unix does: there
/// every timestamp is a point in time. Elsewhere the call may panic on timestamps far from the epoch.
#[verifier::external_body]
fn to_system_time(timestamp: DateTime) -> (time: ClockTime)
    ensures
        time.valid(),
        time.since_epoch() == timestamp * 1_000_000,
{
    let time = bson::DateTime::from_millis(timestamp).to_system_time();
    match time.duration_since(SystemTime::UNIX_EPOCH) {
        Ok(after) => ClockTime { before_epoch: false, secs: after.as_secs(), nanos: after.subsec_nanos() },
        Err(error) => ClockTime {
            before_epoch: true,
            secs: error.duration().as_secs(),
            nanos: error.duration().subsec_nanos(),
        },
    }
}

/// Calls `bson::DateTime::from` on the system time that lies `after_secs` and `after_nanos` after
/// the epoch, less `before_secs` and `before_nanos`: rounds towards the epoch to whole milliseconds,
/// and keeps to the range of timestamps.
///
/// Assumes a platform whose `SystemTime` holds seconds as a signed 64-bit number, as Unix does: there
/// the sum and the difference are points in time. Elsewhere computing them may panic.
#[verifier::external_body]
fn date_time_from_system_time(after_secs: u64, after_nanos: u32, before_secs: u64, before_nanos: u32) -> (timestamp:
    DateTime)
    requires
        after_secs <= i64::MAX,
        after_nanos < NANOS_PER_SEC,
        before_secs <= i64::MAX,
        before_nanos < NANOS_PER_SEC,
    ensures
        timestamp == timestamp_at(
            after_secs * NANOS_PER_SEC + after_nanos - (before_secs * NANOS_PER_SEC + before_nanos),
        ),
{
    let after = Duration::new(after_secs, after_nanos);
    let before = Duration::new(before_secs, before_nanos);
    bson::DateTime::from(SystemTime::UNIX_EPOCH + after - before).timestamp_millis()
}

/// Computes the BSON timestamp of a clock reading.
pub fn from_system_time(time: ClockTime) -> (timestamp: DateTime)
    requires
        time.valid(),
    ensures
        timestamp == timestamp_of(time),
{
    if time.before_epoch {
        date_time_from_system_time(0, 0, time.secs, time.nanos)
    } else {
        date_time_from_system_time(time.secs, time.nanos, 0, 0)
    }
}

/// Whether an order that was created at `created_at` may still be placed at `now`: it has not been
/// pending for longer than the timeout.
pub open spec fn is_within_timeout(created_at: DateTime, now: ClockTime) -> bool {
    created_at * 1_000_000 + PENDING_TIMEOUT_SECS * NANOS_PER_SEC >= now.since_epoch()
}

/// Decides whether an order that was created at `created_at` may still be placed at `now`.
pub fn within_timeout(created_at: DateTime, now: &ClockTime) -> (within: bool)
    requires
        now.valid(),
    ensures
        within == is_within_timeout(created_at, *now),
{
    let created: i128 = to_system_time(created_at).nanos_since_epoch();
    let timeout: i128 = PENDING_TIMEOUT_SECS as i128 * NANOS_PER_SEC as i128;
    created + timeout >= now.nanos_since_epoch()
}

/// An order that may still be placed at some time could also have been placed earlier.
pub proof fn timeout_is_monotone(created_at: DateTime, earlier: ClockTime, later: ClockTime)
    requires
        earlier.since_epoch() <= later.since_epoch(),
        is_within_timeout(created_at, later),
    ensures
        is_within_timeout(created_at, earlier),
{
}

/// An order that may still be placed is placed at most the timeout after it was created, in
/// timestamps as well.
pub proof fn timestamps_keep_the_timeout(created_at: DateTime, now: ClockTime)
    requires
        is_within_timeout(created_at, now),
    ensures
        i64::MIN <= timestamp_of(now) <= i64::MAX,
        timestamp_of(now) <= created_at + PENDING_TIMEOUT_SECS * 1_000,
{
}

/// The timestamp of the clock time of a timestamp is that timestamp again.
pub proof fn timestamp_round_trip(timestamp: DateTime, time: ClockTime)
    requires
        time.valid(),
        time.since_epoch() == timestamp * 1_000_000,
    ensures
        timestamp_of(time) == timestamp,
{
}

/// A clock time is valid if its seconds fit a signed 64-bit number and its nanoseconds make no
/// second.
pub proof fn valid_times_are_in_range(time: ClockTime)
    ensures
        time.valid() <==> time.secs <= 0x7fff_ffff_ffff_ffff && time.nanos < 1_000_000_000,
{
}

/// A clock time lies as many nanoseconds from the epoch as its seconds and nanoseconds say, on the
/// side that it says.
pub proof fn clock_times_count_from_the_epoch(time: ClockTime)
    ensures
        !time.before_epoch ==> time.since_epoch() == time.secs * 1_000_000_000 + time.nanos,
        time.before_epoch ==> time.since_epoch() + time.secs * 1_000_000_000 + time.nanos == 0,
{
}

/// An order may be placed for exactly an hour: the nanosecond after it is too late.
pub proof fn orders_may_be_placed_for_an_hour(created_at: DateTime, now: ClockTime)
    ensures
        is_within_timeout(created_at, now) <==> (if now.before_epoch {
            created_at * 1_000_000 + 3_600_000_000_000 + now.secs * 1_000_000_000 + now.nanos >= 0
        } else {
            now.secs * 1_000_000_000 + now.nanos <= created_at * 1_000_000 + 3_600_000_000_000
        }),
{
}

/// The timestamp of a clock time is less than a millisecond nearer to the epoch than the time, unless
/// it is the latest or the earliest that there is, and it never lies beyond the time.
pub proof fn timestamps_are_within_a_millisecond(time: ClockTime)
    ensures
        !time.before_epoch ==> {
            let nanos = time.secs * 1_000_000_000 + time.nanos;
            &&& 0 <= timestamp_of(time) * 1_000_000 <= nanos
            &&& nanos < timestamp_of(time) * 1_000_000 + 1_000_000 || timestamp_of(time) == i64::MAX
        },
        time.before_epoch ==> {
            let nanos = time.secs * 1_000_000_000 + time.nanos;
            &&& 0 <= -timestamp_of(time) * 1_000_000 <= nanos
            &&& nanos < -timestamp_of(time) * 1_000_000 + 1_000_000 || timestamp_of(time) == i64::MIN
        },
        i64::MIN <= timestamp_of(time) <= i64::MAX,
{
    assert(time.secs * NANOS_PER_SEC == time.secs * 1_000_000_000);
    assert(time.distance() >= 0);
}

} // verus!
