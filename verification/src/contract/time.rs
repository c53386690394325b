use vstd::prelude::*;

verus! {

/// A span of time, held as a whole number of nanoseconds.
///
/// The range is that of a `u64` count of seconds, far wider than a
/// [`Timestamp`] can hold, so any span a configuration can name fits.
#[derive(Copy, Clone, Debug, PartialEq, Eq, Structural)]
pub struct Duration {
    nanos: u128,
}

impl View for Duration {
    type V = int;

    /// The span in nanoseconds.
    closed spec fn view(&self) -> int {
        self.nanos as int
    }
}

impl Duration {
    pub fn zero() -> (d: Duration)
        ensures
            d@ == 0,
    {
        Duration { nanos: 0 }
    }

    /// Seconds and nanoseconds; a billion nanoseconds or more carry over into
    /// the seconds, whose count has to stay within a `u64`.
    pub fn new(secs: u64, nanos: u32) -> (d: Duration)
        requires
            secs + nanos / 1_000_000_000 <= u64::MAX,
        ensures
            d@ == secs * 1_000_000_000 + nanos,
    {
        Duration { nanos: secs as u128 * 1_000_000_000 + nanos as u128 }
    }

    pub fn from_nanos(nanos: u64) -> (d: Duration)
        ensures
            d@ == nanos,
    {
        Duration { nanos: nanos as u128 }
    }

    pub fn from_millis(millis: u64) -> (d: Duration)
        ensures
            d@ == millis * 1_000_000,
    {
        Duration { nanos: millis as u128 * 1_000_000 }
    }

    pub fn from_secs(secs: u64) -> (d: Duration)
        ensures
            d@ == secs * 1_000_000_000,
    {
        Duration { nanos: secs as u128 * 1_000_000_000 }
    }

    pub fn as_nanos(&self) -> (nanos: u128)
        ensures
            nanos == self@,
    {
        self.nanos
    }
}

/// Nanoseconds on a monotonic clock with an arbitrary epoch.
///
/// The time source is injected by the hosting profile; nothing in this crate
/// reads a clock, so the same logic runs on every profile.
#[derive(Copy, Clone, Debug, PartialEq, Eq, PartialOrd, Ord, Hash, Structural)]
pub struct Timestamp(u64);

impl View for Timestamp {
    type V = int;

    /// Nanoseconds since the epoch of the clock.
    closed spec fn view(&self) -> int {
        self.0 as int
    }
}

impl Timestamp {
    pub fn from_nanos(nanos: u64) -> (t: Timestamp)
        ensures
            t@ == nanos,
    {
        Timestamp(nanos)
    }

    pub fn as_nanos(&self) -> (nanos: u64)
        ensures
            nanos == self@,
    {
        self.0
    }

    /// None if `earlier` is in fact later than `self`.
    pub fn checked_duration_since(self, earlier: Timestamp) -> (d: Option<Duration>)
        ensures
            d is Some <==> earlier@ <= self@,
            d matches Some(span) ==> span@ == self@ - earlier@,
    {
        if earlier.0 <= self.0 {
            Some(Duration::from_nanos(self.0 - earlier.0))
        } else {
            None
        }
    }

    pub fn saturating_duration_since(self, earlier: Timestamp) -> (d: Duration)
        ensures
            d@ == if earlier@ <= self@ {
                self@ - earlier@
            } else {
                0
            },
    {
        if earlier.0 <= self.0 {
            Duration::from_nanos(self.0 - earlier.0)
        } else {
            Duration::zero()
        }
    }

    /// None on overflow of the u64 nanosecond range.
    pub fn checked_add(self, duration: Duration) -> (t: Option<Timestamp>)
        ensures
            t is Some <==> self@ + duration@ <= u64::MAX,
            t matches Some(later) ==> later@ == self@ + duration@,
    {
        let nanos: u128 = duration.as_nanos();
        if nanos <= (u64::MAX - self.0) as u128 {
            Some(Timestamp(self.0 + nanos as u64))
        } else {
            None
        }
    }
}

/// Two timestamps are the same exactly when their nanosecond counts are.
pub proof fn timestamp_is_its_nanos(a: Timestamp, b: Timestamp)
    ensures
        a == b <==> a@ == b@,
        0 <= a@ <= u64::MAX,
{
}

/// The span between two times always fits the clock when it is added to the
/// earlier one, and leads to the later one and to no other.
pub proof fn elapsed_span_leads_back(earlier: Timestamp, later: Timestamp, span: Duration)
    requires
        earlier@ <= later@,
        span@ == later@ - earlier@,
    ensures
        earlier@ + span@ <= u64::MAX,
        forall|t: Timestamp| #[trigger] t@ == earlier@ + span@ ==> t == later,
{
}

/// Two durations are the same exactly when their nanosecond counts are.
pub proof fn duration_is_its_nanos(a: Duration, b: Duration)
    ensures
        a == b <==> a@ == b@,
        0 <= a@,
{
}

} // verus!
