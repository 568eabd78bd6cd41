//! Instants and the time elapsed between them.

use vstd::prelude::*;

verus! {

/// Nanoseconds in one second.
pub const NANOS_PER_SECOND: u32 = 1_000_000_000;

/// Seconds in one minute.
pub const SECONDS_PER_MINUTE: i64 = 60;

/// Nanoseconds in one minute.
pub const NANOS_PER_MINUTE: i64 = 60_000_000_000;

/// The first second, counted from the Unix epoch, that an instant can lie in:
/// midnight before the first day of the year -262143.
pub const EARLIEST_SECOND: i64 = -8_334_601_228_800;

/// The last second, counted from the Unix epoch, that an instant can lie in:
/// the one before midnight after the last day of the year 262142.
pub const LATEST_SECOND: i64 = 8_210_266_876_799;

/// An instant: whole seconds since the Unix epoch, rounded down, and the
/// nanoseconds into that second. No time zone is attached and no leap second
/// is represented.
#[derive(Clone, Copy, Debug, PartialEq, Eq)]
pub struct Timestamp {
    secs: i64,
    nanos: u32,
}

impl Timestamp {
    /// Every instant is in range.
    #[verifier::type_invariant]
    pub closed spec fn well_formed(self) -> bool {
        Self::in_range(self.secs as int, self.nanos as int)
    }

    /// Whole seconds since the Unix epoch, rounded down.
    pub closed spec fn seconds(self) -> int {
        self.secs as int
    }

    /// Nanoseconds into the second.
    pub closed spec fn subsec(self) -> int {
        self.nanos as int
    }

    /// The instant as a count of nanoseconds since the Unix epoch.
    pub open spec fn nanoseconds(self) -> int {
        self.seconds() * NANOS_PER_SECOND + self.subsec()
    }

    /// Whether `secs` and `nanos` name an instant that this type can hold.
    pub open spec fn in_range(secs: int, nanos: int) -> bool {
        &&& EARLIEST_SECOND <= secs <= LATEST_SECOND
        &&& 0 <= nanos < NANOS_PER_SECOND
    }

    /// The instant `nanos` nanoseconds into the second `secs`, if there is one.
    pub fn new(secs: i64, nanos: u32) -> (made: Option<Timestamp>)
        ensures
            made is Some <==> Self::in_range(secs as int, nanos as int),
            made matches Some(t) ==> t.seconds() == secs && t.subsec() == nanos,
    {
        if EARLIEST_SECOND <= secs && secs <= LATEST_SECOND && nanos < NANOS_PER_SECOND {
            Some(Timestamp { secs, nanos })
        } else {
            None
        }
    }

    /// Whole seconds since the Unix epoch, rounded down.
    pub fn timestamp(&self) -> (secs: i64)
        ensures
            secs == self.seconds(),
            EARLIEST_SECOND <= secs <= LATEST_SECOND,
    {
        proof {
            use_type_invariant(self);
        }
        self.secs
    }

    /// Nanoseconds into the second.
    pub fn timestamp_subsec_nanos(&self) -> (nanos: u32)
        ensures
            nanos == self.subsec(),
            nanos < NANOS_PER_SECOND,
    {
        proof {
            use_type_invariant(self);
        }
        self.nanos
    }
}

/// No two instants lie further apart than this many seconds.
pub const LONGEST_AGE_SECONDS: i64 = 16_544_868_105_600;

/// `n / d` with the fraction dropped, so that the result lies between zero
/// and the exact quotient.
pub open spec fn toward_zero(n: int, d: int) -> int
    recommends
        d > 0,
{
    if n >= 0 {
        n / d
    } else {
        -((-n) / d)
    }
}

/// The whole minutes in the time from `earlier` to `later`, counted toward
/// zero; negative where `later` comes first.
pub open spec fn minutes_between(later: Timestamp, earlier: Timestamp) -> int {
    toward_zero(later.nanoseconds() - earlier.nanoseconds(), NANOS_PER_MINUTE as int)
}

/// The time elapsed from one instant to another: whole seconds, counted
/// toward zero, and the nanoseconds left over, which carry the same sign.
/// It is negative where the second instant comes before the first.
#[derive(Clone, Copy, Debug, PartialEq, Eq)]
pub struct Age {
    secs: i64,
    nanos: i32,
}

impl Age {
    /// Every age is in range.
    #[verifier::type_invariant]
    pub closed spec fn well_formed(self) -> bool {
        Self::in_range(self.secs as int, self.nanos as int)
    }

    /// Whether `secs` and `nanos` are the two parts of an age between two
    /// instants.
    pub open spec fn in_range(secs: int, nanos: int) -> bool {
        &&& -LONGEST_AGE_SECONDS <= secs <= LONGEST_AGE_SECONDS
        &&& -(NANOS_PER_SECOND as int) < nanos < NANOS_PER_SECOND
        &&& secs > 0 ==> nanos >= 0
        &&& secs < 0 ==> nanos <= 0
    }

    /// Whole seconds, counted toward zero.
    pub closed spec fn whole_seconds(self) -> int {
        self.secs as int
    }

    /// The nanoseconds beyond the whole seconds.
    pub closed spec fn subsec(self) -> int {
        self.nanos as int
    }

    /// The age as a count of nanoseconds.
    pub open spec fn nanoseconds(self) -> int {
        self.whole_seconds() * NANOS_PER_SECOND + self.subsec()
    }

    /// Whole minutes, counted toward zero.
    pub open spec fn minutes(self) -> int {
        toward_zero(self.nanoseconds(), NANOS_PER_MINUTE as int)
    }

    /// Whole seconds, counted toward zero.
    pub fn num_seconds(&self) -> (secs: i64)
        ensures
            secs == self.whole_seconds(),
            secs == toward_zero(self.nanoseconds(), NANOS_PER_SECOND as int),
    {
        proof {
            use_type_invariant(self);
        }
        self.secs
    }

    /// The nanoseconds beyond the whole seconds; never positive in a
    /// negative age.
    pub fn subsec_nanos(&self) -> (nanos: i32)
        ensures
            nanos == self.subsec(),
            nanos == self.nanoseconds() - NANOS_PER_SECOND * toward_zero(
                self.nanoseconds(),
                NANOS_PER_SECOND as int,
            ),
    {
        proof {
            use_type_invariant(self);
        }
        self.nanos
    }

    /// Whole minutes, counted toward zero.
    pub fn num_minutes(&self) -> (minutes: i64)
        ensures
            minutes == self.minutes(),
    {
        proof {
            use_type_invariant(self);
        }
        minutes_in(self.secs)
    }
}

impl Timestamp {
    /// Reads the clock. Whenever it answers, the instant lies at or after the
    /// Unix epoch.
    pub fn now() -> (t: Timestamp)
        ensures
            t.seconds() >= 0,
    {
        read_clock()
    }

    /// The time elapsed from `earlier` to `self`.
    pub fn signed_duration_since(&self, earlier: &Timestamp) -> (elapsed: Age)
        ensures
            elapsed.nanoseconds() == self.nanoseconds() - earlier.nanoseconds(),
            elapsed.minutes() == minutes_between(*self, *earlier),
    {
        elapsed_between(self, earlier)
    }
}

/// How long ago `start` was, by the clock as it stands at the call. Two calls
/// may differ; every answer is the time from `start` to an instant that lies
/// at or after the Unix epoch and no later than the last instant there is.
pub fn age(start: &Timestamp) -> (elapsed: Age)
    ensures
        elapsed.nanoseconds() + start.nanoseconds() >= 0,
        elapsed.nanoseconds() + start.nanoseconds() <= LATEST_SECOND * NANOS_PER_SECOND + (
        NANOS_PER_SECOND - 1),
{
    let now = Timestamp::now();
    let elapsed = now.signed_duration_since(start);
    proof {
        use_type_invariant(&now);
    }
    elapsed
}

/// `chrono::Local::now`, taken apart by `DateTime::timestamp` and
/// `DateTime::timestamp_subsec_nanos`. chrono builds the value from the
/// system clock's distance to the Unix epoch, so the seconds are never
/// negative and the nanoseconds stay below one second; it panics where the
/// clock stands before the epoch or beyond the last instant it can hold.
#[verifier::external_body]
fn read_clock() -> (t: Timestamp)
    ensures
        t.seconds() >= 0,
        Timestamp::in_range(t.seconds(), t.subsec()),
{
    let now = chrono::Local::now();
    Timestamp { secs: now.timestamp(), nanos: now.timestamp_subsec_nanos() }
}

/// `chrono::DateTime::signed_duration_since` on the two instants, each built
/// by `DateTime::from_timestamp`, which accepts every instant this crate can
/// hold, so that the fallback is never taken. The result is read back
/// through `TimeDelta::num_seconds` and `TimeDelta::subsec_nanos`: it is the
/// exact difference, and chrono documents that taking it never overflows.
#[verifier::external_body]
fn elapsed_between(later: &Timestamp, earlier: &Timestamp) -> (elapsed: Age)
    ensures
        elapsed.nanoseconds() == later.nanoseconds() - earlier.nanoseconds(),
        Age::in_range(elapsed.whole_seconds(), elapsed.subsec()),
{
    let later = chrono::DateTime::from_timestamp(later.secs, later.nanos).unwrap_or_default();
    let earlier = chrono::DateTime::from_timestamp(earlier.secs, earlier.nanos).unwrap_or_default();
    let delta = later.signed_duration_since(earlier);
    Age { secs: delta.num_seconds(), nanos: delta.subsec_nanos() }
}

/// `chrono::TimeDelta::num_minutes` on a duration of `seconds` whole
/// seconds, made by `TimeDelta::seconds`, which accepts every count of
/// seconds that an age can have: chrono divides the seconds by sixty and
/// drops the remainder.
#[verifier::external_body]
fn minutes_in(seconds: i64) -> (minutes: i64)
    requires
        -LONGEST_AGE_SECONDS <= seconds <= LONGEST_AGE_SECONDS,
    ensures
        minutes == toward_zero(seconds as int, SECONDS_PER_MINUTE as int),
{
    chrono::TimeDelta::seconds(seconds).num_minutes()
}

} // verus!
