//! The liveness policy of a client connection: how often it is pinged and how
//! long it may stay silent.

use vstd::prelude::*;

verus! {

/// Ping interval and silence timeout of the heartbeat protocol, both in
/// milliseconds.
///
/// A policy is only ever built by [`HeartbeatPolicy::new`] or
/// [`HeartbeatPolicy::standard`], so every value satisfies
/// [`HeartbeatPolicy::wf`]: the interval is positive and the timeout is at
/// least twice the interval, which tolerates one missed ping before the
/// connection is dropped.
#[derive(Debug, Clone, Copy, PartialEq, Eq, Structural)]
pub struct HeartbeatPolicy {
    ping_interval_ms: u64,
    timeout_ms: u64,
}

/// Why a pair of durations was refused as a heartbeat policy.
#[derive(Debug, Clone, Copy, PartialEq, Eq, Structural)]
pub enum PolicyError {
    /// The ping interval was zero: the tick schedule would never advance.
    ZeroInterval,
    /// The timeout was shorter than two ping intervals.
    TimeoutTooShort,
}

impl HeartbeatPolicy {
    /// Milliseconds between two heartbeat ticks.
    pub closed spec fn interval(self) -> nat {
        self.ping_interval_ms as nat
    }

    /// Milliseconds of silence after which a connection counts as dead.
    pub closed spec fn timeout(self) -> nat {
        self.timeout_ms as nat
    }

    /// The invariant of every policy.
    pub open spec fn wf(self) -> bool {
        &&& self.interval() > 0
        &&& self.timeout() >= 2 * self.interval()
    }

    /// Builds a policy, refusing durations that break the invariant.
    pub fn new(ping_interval_ms: u64, timeout_ms: u64) -> (made: Result<HeartbeatPolicy, PolicyError>)
        ensures
            match made {
                Ok(policy) => {
                    &&& policy.wf()
                    &&& policy.interval() == ping_interval_ms
                    &&& policy.timeout() == timeout_ms
                },
                Err(PolicyError::ZeroInterval) => ping_interval_ms == 0,
                Err(PolicyError::TimeoutTooShort) => {
                    &&& ping_interval_ms > 0
                    &&& timeout_ms < 2 * ping_interval_ms
                },
            },
    {
        if ping_interval_ms == 0 {
            return Err(PolicyError::ZeroInterval);
        }
        // timeout >= 2 * interval, written so that nothing can overflow
        if timeout_ms < ping_interval_ms || timeout_ms - ping_interval_ms < ping_interval_ms {
            return Err(PolicyError::TimeoutTooShort);
        }
        Ok(HeartbeatPolicy { ping_interval_ms, timeout_ms })
    }

    /// The stock policy: a ping every 5 seconds, a timeout of 10 seconds.
    pub fn standard() -> (policy: HeartbeatPolicy)
        ensures
            policy.wf(),
            policy.interval() == 5_000,
            policy.timeout() == 10_000,
    {
        HeartbeatPolicy { ping_interval_ms: 5_000, timeout_ms: 10_000 }
    }

    pub fn ping_interval_ms(&self) -> (ms: u64)
        ensures
            ms == self.interval(),
    {
        self.ping_interval_ms
    }

    pub fn timeout_ms(&self) -> (ms: u64)
        ensures
            ms == self.timeout(),
    {
        self.timeout_ms
    }
}

} // verus!
