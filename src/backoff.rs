//! Bounded exponential backoff for connecting to the bus.

use vstd::prelude::*;

verus! {

/// Number of connection attempts before a connect failure is surfaced.
pub const MAX_CONNECT_ATTEMPTS: u32 = 5;

/// Delay after the first failed attempt, in milliseconds.
pub const BASE_DELAY_MS: u64 = 100;

/// Two to the power `n`.
pub open spec fn pow2(n: nat) -> nat
    decreases n,
{
    if n == 0 {
        1
    } else {
        2 * pow2((n - 1) as nat)
    }
}

/// Delay in milliseconds to wait after failed attempt number `attempt` (counted from 1).
pub open spec fn delay_after(attempt: nat) -> nat {
    (BASE_DELAY_MS * pow2((attempt - 1) as nat)) as nat
}

/// What the connecting side does after an attempt failed.
#[derive(Debug, Clone, Copy, PartialEq, Eq, Structural)]
pub enum ConnectStep {
    /// Sleep for the given number of milliseconds, then try again.
    RetryAfter(u64),
    /// The attempt cap is reached: surface a connection error.
    GiveUp,
}

/// The delay after failed attempt `attempt`: 100 ms, doubling each time.
pub fn backoff_delay_ms(attempt: u32) -> (r: u64)
    requires
        1 <= attempt <= MAX_CONNECT_ATTEMPTS,
    ensures
        r as nat == delay_after(attempt as nat),
{
    let mut delay: u64 = BASE_DELAY_MS;
    let mut i: u32 = 1;
    while i < attempt
        invariant
            1 <= i <= attempt <= MAX_CONNECT_ATTEMPTS,
            delay as nat == delay_after(i as nat),
        decreases attempt - i,
    {
        proof {
            reveal_with_fuel(pow2, 5);
        }
        delay = delay * 2;
        i = i + 1;
    }
    delay
}

/// Decides what follows failed attempt `attempt`: retry after the backoff
/// delay while attempts remain, give up after the last one.
pub fn after_failed_attempt(attempt: u32) -> (r: ConnectStep)
    requires
        1 <= attempt <= MAX_CONNECT_ATTEMPTS,
    ensures
        attempt < MAX_CONNECT_ATTEMPTS ==> r == ConnectStep::RetryAfter(delay_after(attempt as nat) as u64),
        attempt == MAX_CONNECT_ATTEMPTS ==> r == ConnectStep::GiveUp,
{
    if attempt < MAX_CONNECT_ATTEMPTS {
        ConnectStep::RetryAfter(backoff_delay_ms(attempt))
    } else {
        ConnectStep::GiveUp
    }
}

} // verus!
