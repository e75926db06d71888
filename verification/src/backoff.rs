//! Exponential backoff between attempts to reach a service.

use crate::delay;
use crate::delay::shorter;
use std::time::Duration;
use vstd::arithmetic::power2::*;
use vstd::prelude::*;

verus! {

/// The first wait, in seconds.
pub const BASE_SECS: u64 = 1;

/// The longest wait, in seconds.
pub const MAX_SECS: u64 = 60;

/// The wait, in nanoseconds, that follows a wait of `nanos`: twice as long, up to the
/// longest one.
pub open spec fn next_wait(nanos: int) -> int {
    delay::at_most(2 * nanos, delay::secs(MAX_SECS as int))
}

/// The wait, in nanoseconds, after `failures` failures in a row that came before.
pub open spec fn wait_after(failures: nat) -> int
    decreases failures,
{
    if failures == 0 {
        delay::secs(BASE_SECS as int)
    } else {
        next_wait(wait_after((failures - 1) as nat))
    }
}

/// Waits start at the base, double with every failure, and stay at the longest one
/// once they are there.
pub proof fn law_wait_doubles(failures: nat)
    ensures
        wait_after(failures) == delay::at_most(
            delay::secs(pow2(failures) as int),
            delay::secs(MAX_SECS as int),
        ),
    decreases failures,
{
    lemma2_to64();
    if failures > 0 {
        law_wait_doubles((failures - 1) as nat);
        lemma_pow2_unfold(failures);
    }
}

/// How long to wait before the next attempt. The wait doubles with every failure, up
/// to a limit, and starts over once an attempt succeeds.
pub struct Backoff {
    current: Duration,
}

impl View for Backoff {
    type V = int;

    /// The next wait, in nanoseconds.
    closed spec fn view(&self) -> int {
        delay::duration_nanos(self.current) as int
    }
}

impl Backoff {
    /// A backoff that starts with the first wait.
    pub fn new() -> (r: Self)
        ensures
            r@ == wait_after(0),
    {
        Backoff { current: Duration::from_secs(BASE_SECS) }
    }

    /// Starts over with the first wait.
    pub fn reset(&mut self)
        ensures
            final(self)@ == wait_after(0),
    {
        self.current = Duration::from_secs(BASE_SECS);
    }

    /// How long to wait now. The wait after that will be longer.
    pub fn next_delay(&mut self) -> (r: Duration)
        ensures
            delay::duration_nanos(r) == old(self)@,
            final(self)@ == next_wait(old(self)@),
    {
        let delay = self.current;
        self.current = shorter(delay.saturating_mul(2), Duration::from_secs(MAX_SECS));
        delay
    }
}

/// The first wait is a second. Each further one is twice as long, up to a minute.
pub proof fn law_waits_in_numbers(nanos: int)
    ensures
        wait_after(0) == 1_000_000_000,
        next_wait(nanos) == if 2 * nanos < 60_000_000_000 {
            2 * nanos
        } else {
            60_000_000_000
        },
{
}

} // verus!
