//! Points in time, as plain numbers.

use vstd::prelude::*;

verus! {

/// A point in time, in nanoseconds after its clock's origin.
#[derive(Clone, Copy, Debug, PartialEq, Eq, PartialOrd, Ord, Hash, Structural)]
pub struct Instant {
    pub nanos: u64,
}

/// The earlier of two instants, either of which may be missing.
pub open spec fn earlier_of(a: Option<Instant>, b: Option<Instant>) -> Option<Instant> {
    match (a, b) {
        (Some(first), Some(second)) => if second.nanos < first.nanos {
            b
        } else {
            a
        },
        (None, _) => b,
        (_, None) => a,
    }
}

/// Returns the earlier of two instants, either of which may be missing.
pub fn earlier(a: Option<Instant>, b: Option<Instant>) -> (earliest: Option<Instant>)
    ensures
        earliest == earlier_of(a, b),
{
    match (a, b) {
        (Some(first), Some(second)) => if second.nanos < first.nanos {
            b
        } else {
            a
        },
        (None, _) => b,
        (_, None) => a,
    }
}

/// std's monotonic instant, carried inside a [`Clock`].
#[verifier::external_type_specification]
#[verifier::external_body]
pub struct ExStdInstant(std::time::Instant);

/// `std::time::Instant::now`.
///
/// What it returns depends on when it is called, so nothing is claimed of
/// it.
#[verifier::external_body]
fn std_now() -> (origin: std::time::Instant) {
    std::time::Instant::now()
}

/// `std::time::Instant::elapsed`, in nanoseconds.
///
/// What it returns depends on when it is called, so nothing is claimed of
/// it.
#[verifier::external_body]
fn std_elapsed(origin: &std::time::Instant) -> (nanos: u64) {
    origin.elapsed().as_nanos() as u64
}

/// A source of instants.
pub struct Clock {
    origin: std::time::Instant,
}

impl Clock {
    /// Whether the clock's origin is a reading of the machine's time.
    pub closed spec fn set(&self) -> bool {
        call_ensures(std_now, (), self.origin)
    }

    /// Whether an instant is what the clock showed when it was looked at.
    pub closed spec fn reads(&self, now: Instant) -> bool {
        call_ensures(std_elapsed, (&self.origin,), now.nanos)
    }

    /// Creates a clock whose origin is the time of the call.
    pub fn new() -> (clock: Self)
        ensures
            clock.set(),
    {
        Clock { origin: std_now() }
    }

    /// The current time.
    pub fn now(&self) -> (now: Instant)
        ensures
            self.reads(now),
    {
        Instant { nanos: std_elapsed(&self.origin) }
    }
}

/// The earlier of two instants is one of them, lies behind neither, and is
/// missing only where both are.
pub proof fn the_earlier_instant_is_behind_neither(a: Option<Instant>, b: Option<Instant>)
    ensures
        earlier_of(a, b) == a || earlier_of(a, b) == b,
        earlier_of(a, b) is None <==> a is None && b is None,
        a is Some ==> earlier_of(a, b)->0.nanos <= a->0.nanos,
        b is Some ==> earlier_of(a, b)->0.nanos <= b->0.nanos,
{
}

} // verus!
