//! Wall-clock helpers. Trait-based so tests can inject a fixed clock and so
//! the worker can plug in its own.

use vstd::prelude::*;

verus! {

/// Milliseconds as whole seconds, rounded toward zero.
pub open spec fn whole_seconds(ms: int) -> int {
    if ms >= 0 {
        ms / 1000
    } else {
        -((-ms) / 1000)
    }
}

/// Milliseconds as whole seconds, rounded toward zero.
pub fn to_unix_seconds(ms: i64) -> (r: i64)
    ensures
        r == whole_seconds(ms as int),
{
    if ms >= 0 {
        ms / 1000
    } else if ms == i64::MIN {
        -9223372036854775
    } else {
        -((-ms) / 1000)
    }
}

/// A wall clock.
pub trait Clock {
    /// Whether the clock can show this many milliseconds.
    spec fn shows(&self, ms: i64) -> bool;

    /// Milliseconds since the Unix epoch.
    fn now_ms(&self) -> (r: i64)
        ensures
            self.shows(r),
    ;

    /// Seconds since the Unix epoch: milliseconds that the clock shows, in
    /// whole seconds.
    fn now_unix_seconds(&self) -> (r: i64)
        ensures
            -9223372036854775 <= r <= 9223372036854775,
            exists|ms: i64| #[trigger] self.shows(ms) && r == whole_seconds(ms as int),
    {
        to_unix_seconds(self.now_ms())
    }
}

/// Whether a clock can show this many whole seconds.
pub open spec fn shows_second<C: Clock>(clock: C, seconds: i64) -> bool {
    exists|ms: i64| #[trigger] clock.shows(ms) && seconds == whole_seconds(ms as int)
}

/// `SystemTime::duration_since` of now and the Unix epoch, in whole
/// milliseconds, or nothing where the system's time is before it. Nothing is
/// promised of the time.
#[verifier::external_body]
fn system_millis() -> Option<u128> {
    std::time::SystemTime::now().duration_since(std::time::UNIX_EPOCH).ok().map(|d| d.as_millis())
}

/// The time that a clock shows this long after the Unix epoch; a time before
/// it is shown as the epoch. (The low 64 bits: they hold 292 million years.)
pub fn clock_reading(elapsed_ms: Option<u128>) -> (r: i64)
    ensures
        elapsed_ms is None ==> r == 0,
        elapsed_ms matches Some(ms) ==> r == ms as i64,
        elapsed_ms matches Some(ms) ==> (ms <= i64::MAX ==> r == ms),
{
    match elapsed_ms {
        Some(ms) => ms as i64,
        None => 0,
    }
}

/// Host clock backed by the system's time.
pub struct SystemClock;

impl SystemClock {
    pub fn new() -> Self {
        SystemClock
    }
}

impl Clock for SystemClock {
    /// Any time: nothing is known of what the system's clock is set to.
    open spec fn shows(&self, ms: i64) -> bool {
        true
    }

    fn now_ms(&self) -> i64 {
        clock_reading(system_millis())
    }
}

/// Mockable clock for tests.
pub struct FixedClock {
    pub at_ms: i64,
}

impl FixedClock {
    pub fn new(now_ms: i64) -> (r: Self)
        ensures
            r.at_ms == now_ms,
    {
        FixedClock { at_ms: now_ms }
    }

    /// Moves the clock by `by_ms`, wrapping around at the ends of `i64`.
    pub fn advance(&mut self, by_ms: i64)
        ensures
            final(self).at_ms == old(self).at_ms.wrapping_add(by_ms),
    {
        self.at_ms = self.at_ms.wrapping_add(by_ms);
    }
}

impl Clock for FixedClock {
    open spec fn shows(&self, ms: i64) -> bool {
        ms == self.at_ms
    }

    fn now_ms(&self) -> (r: i64)
        ensures
            r == self.at_ms,
    {
        self.at_ms
    }

    fn now_unix_seconds(&self) -> (r: i64)
        ensures
            r == whole_seconds(self.at_ms as int),
    {
        assert(self.shows(self.at_ms));
        to_unix_seconds(self.at_ms)
    }
}

/// Whole seconds drop what is less than a second, toward zero.
pub proof fn law_whole_seconds(ms: int)
    ensures
        ms >= 0 ==> 0 <= whole_seconds(ms) && 1000 * whole_seconds(ms) <= ms < 1000 * (
        whole_seconds(ms) + 1),
        ms < 0 ==> whole_seconds(ms) <= 0 && 1000 * (whole_seconds(ms) - 1) < ms <= 1000
            * whole_seconds(ms),
        whole_seconds(-ms) == -whole_seconds(ms),
{
}

} // verus!
