//! Amounts of work and points in time, held as plain integers.

use vstd::prelude::*;

verus! {

pub const NANOS_PER_SEC: u128 = 1_000_000_000;

pub const NANOS_PER_MILLI: u128 = 1_000_000;

/// An amount of work time, counted in nanoseconds.
#[derive(Clone, Copy, Debug, PartialEq, Eq, PartialOrd, Ord, Structural)]
pub struct WorkTime {
    pub nanos: u128,
}

impl WorkTime {
    pub fn zero() -> (t: Self)
        ensures
            t.nanos == 0,
    {
        WorkTime { nanos: 0 }
    }

    pub fn from_secs(secs: u64) -> (t: Self)
        ensures
            t.nanos == secs * NANOS_PER_SEC,
    {
        WorkTime { nanos: secs as u128 * NANOS_PER_SEC }
    }

    pub fn from_millis(millis: u64) -> (t: Self)
        ensures
            t.nanos == millis * NANOS_PER_MILLI,
    {
        WorkTime { nanos: millis as u128 * NANOS_PER_MILLI }
    }

    pub fn is_zero(&self) -> (b: bool)
        ensures
            b == (self.nanos == 0),
    {
        self.nanos == 0
    }

    /// The smaller of the two amounts.
    pub fn min(self, other: WorkTime) -> (t: Self)
        ensures
            t.nanos == if self.nanos <= other.nanos { self.nanos } else { other.nanos },
    {
        if self.nanos <= other.nanos {
            self
        } else {
            other
        }
    }
}

/// A point in time: whole seconds since 1970-01-01T00:00:00Z, and the
/// nanoseconds that follow them.
#[derive(Clone, Copy, Debug, PartialEq, Eq, PartialOrd, Ord, Structural)]
pub struct Timestamp {
    pub secs: i64,
    pub nanos: u32,
}

impl Timestamp {
    /// Nanoseconds since the epoch.
    pub open spec fn instant(self) -> int {
        self.secs * 1_000_000_000 + self.nanos
    }

    /// The current time by the system clock. Which instant comes back is the
    /// clock's affair; it comes back in normal form.
    pub fn now() -> (t: Timestamp)
        ensures
            t.normalized(),
    {
        utc_now()
    }

    /// Nanoseconds from `earlier` to `self`; negative where `self` comes first.
    pub fn nanos_since(&self, earlier: &Timestamp) -> (d: i128)
        ensures
            d == self.instant() - earlier.instant(),
    {
        let a: i128 = self.secs as i128 * 1_000_000_000 + self.nanos as i128;
        let b: i128 = earlier.secs as i128 * 1_000_000_000 + earlier.nanos as i128;
        a - b
    }

    /// Whether the nanoseconds are a proper fraction of a second, so that
    /// the two fields name the instant in one way only.
    pub open spec fn normalized(self) -> bool {
        self.nanos < NANOS_PER_SEC
    }
}

/// Reads the system clock through `chrono::Utc::now` and takes the reading
/// apart with `DateTime::timestamp` and `DateTime::timestamp_subsec_nanos`.
/// Of the instant nothing is claimed. Of its form this is: `Utc::now` makes
/// its value from the whole seconds and the sub-second nanoseconds of a
/// `std::time::Duration`, which are below one second, and
/// `timestamp_subsec_nanos` hands that fraction back as it was stored.
/// chrono panics where the clock stands before 1970.
#[verifier::external_body]
fn utc_now() -> (t: Timestamp)
    ensures
        t.normalized(),
{
    let now = chrono::Utc::now();
    Timestamp { secs: now.timestamp(), nanos: now.timestamp_subsec_nanos() }
}

} // verus!
