//! Sources of the current time: the system clock, and a clock that only
//! moves when a test advances it.

use std::sync::Arc;
use std::time::{Duration, Instant};
use vstd::prelude::*;

verus! {

#[verifier::external_type_specification]
#[verifier::external_body]
pub struct ExInstant(Instant);

/// The current time (std's `Instant::now`). It depends on the machine's
/// clock, so nothing is stated of it.
#[verifier::external_body]
fn instant_now() -> Instant {
    Instant::now()
}

/// What std's `Instant::checked_add` gives for `t` and `d`: `t` moved forward
/// by `d`, or `None` where the platform cannot represent the result.
pub uninterp spec fn instant_after(t: Instant, d: Duration) -> Option<Instant>;

/// `t` moved forward by `d` (std's `Instant::checked_add`); `None` where the
/// platform cannot represent the result. The sum is a function of `t` and
/// `d` alone, and is named by `instant_after`.
#[verifier::external_body]
fn instant_checked_add(t: Instant, d: Duration) -> (r: Option<Instant>)
    ensures
        r == instant_after(t, d),
{
    t.checked_add(d)
}

/// A source of the current time.
pub trait Clock {
    fn now(&self) -> Instant;
}

/// The system's monotonic clock.
#[derive(Debug, Clone, Copy)]
pub struct RealClock;

impl Clock for RealClock {
    fn now(&self) -> Instant {
        instant_now()
    }
}

/// The clock the application uses outside tests: the system clock.
pub fn default_clock() -> Arc<RealClock> {
    Arc::new(RealClock)
}

/// A clock that stands still until it is advanced.
#[derive(Debug)]
pub struct TestClock {
    current: Instant,
}

impl TestClock {
    /// A clock reading the time at which it was made.
    pub fn new() -> Self {
        TestClock { current: instant_now() }
    }

    /// The time the clock reads.
    pub closed spec fn reading(&self) -> Instant {
        self.current
    }

    /// Moves the clock forward by `duration`. A reading the platform cannot
    /// represent leaves the clock where it was.
    pub fn advance(&mut self, duration: Duration)
        ensures
            final(self).reading() == (match instant_after(old(self).reading(), duration) {
                Some(t) => t,
                None => old(self).reading(),
            }),
    {
        match instant_checked_add(self.current, duration) {
            Some(t) => self.current = t,
            None => {},
        }
    }
}

impl Clock for TestClock {
    fn now(&self) -> (r: Instant)
        ensures
            r == self.reading(),
    {
        self.current
    }
}

} // verus!
