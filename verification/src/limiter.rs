//! The limiter that spaces calls to the external directory.
//!
//! Time is a reading of the caller's clock in nanoseconds, the unit in which
//! the clock reports: nothing is rounded, so that readings which lie the
//! interval apart were taken that far apart.

use vstd::prelude::*;

verus! {

/// What must pass between two calls to the external directory: two seconds,
/// in nanoseconds.
pub const MINIMUM_DELAY: u64 = 2_000_000_000;

/// Nanoseconds between the last call and `now`; zero when the clock reads
/// earlier than the last call.
pub open spec fn elapsed(last: u64, now: u64) -> int {
    if now >= last {
        now - last
    } else {
        0
    }
}

/// Whether a call is allowed at `now`, the last one having been at `last`.
pub open spec fn allowed(last: u64, now: u64) -> bool {
    elapsed(last, now) >= MINIMUM_DELAY
}

/// Nanoseconds to wait at `now` before a call is allowed; zero when one is.
pub open spec fn remaining(last: u64, now: u64) -> int {
    if allowed(last, now) {
        0
    } else {
        MINIMUM_DELAY - elapsed(last, now)
    }
}

/// Remembers when the external directory was last called.
pub struct RateLimiter {
    last_request: u64,
}

impl View for RateLimiter {
    type V = u64;

    /// The time of the last recorded call, in nanoseconds.
    closed spec fn view(&self) -> u64 {
        self.last_request
    }
}

impl RateLimiter {
    /// A limiter that has seen no call yet: its last call counts as made at
    /// time zero.
    pub fn new() -> (limiter: Self)
        ensures
            limiter@ == 0,
    {
        RateLimiter { last_request: 0 }
    }

    /// The time of the last recorded call.
    pub fn last_request(&self) -> (last: u64)
        ensures
            last == self@,
    {
        self.last_request
    }

    /// Whether a call may be made at `now`.
    pub fn allow(&self, now: u64) -> (open: bool)
        ensures
            open == allowed(self@, now),
    {
        now >= self.last_request && now - self.last_request >= MINIMUM_DELAY
    }

    /// Nanoseconds to sleep at `now` until a call may be made.
    pub fn wait(&self, now: u64) -> (nanos: u64)
        ensures
            nanos == remaining(self@, now),
            nanos <= MINIMUM_DELAY,
    {
        if now >= self.last_request {
            let passed = now - self.last_request;
            if passed >= MINIMUM_DELAY {
                0
            } else {
                MINIMUM_DELAY - passed
            }
        } else {
            MINIMUM_DELAY
        }
    }

    /// Records that a call is made at `now`.
    pub fn record(&mut self, now: u64)
        ensures
            final(self)@ == now,
    {
        self.last_request = now;
    }

    /// Two calls that the limiter allowed, the first recorded before the second
    /// was asked for, lie at least [`MINIMUM_DELAY`] apart.
    pub proof fn law_calls_spaced(before: u64, first: u64, second: u64)
        requires
            allowed(before, first),
            allowed(first, second),
        ensures
            second - first >= MINIMUM_DELAY,
    {
    }

    /// While no call is allowed, waiting the reported time allows one.
    pub proof fn law_wait_opens(last: u64, now: u64)
        requires
            last <= now,
            now + remaining(last, now) <= u64::MAX,
        ensures
            allowed(last, (now + remaining(last, now)) as u64),
    {
    }
}

} // verus!
