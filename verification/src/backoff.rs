//! The retry policy of the upstream link: how long to wait after each failed
//! connection attempt, and after how many failures in a row to give up.

use vstd::prelude::*;
use vstd::arithmetic::power2::{pow2, lemma_pow2_pos, lemma_pow2_unfold, lemma_pow2_strictly_increases};

verus! {

/// Bounded exponential backoff with a retry budget.
///
/// After the first failed attempt the link waits for the base delay; each
/// further failure in a row doubles the wait, up to the cap. Once the number
/// of failures in a row reaches the budget, the link gives up for good.
///
/// A policy is only ever built by [`BackoffPolicy::new`] or
/// [`BackoffPolicy::standard`], so every value satisfies
/// [`BackoffPolicy::wf`].
#[derive(Debug, Clone, Copy, PartialEq, Eq, Structural)]
pub struct BackoffPolicy {
    base_delay_ms: u64,
    max_delay_ms: u64,
    max_attempts: u32,
}

/// Why a backoff policy was refused.
#[derive(Debug, Clone, Copy, PartialEq, Eq, Structural)]
pub enum BackoffError {
    /// The base delay was zero: retries would follow each other at once.
    ZeroDelay,
    /// The cap was below the base delay.
    CapBelowBase,
    /// The budget allowed no attempt at all.
    NoAttempts,
}

impl BackoffPolicy {
    /// Milliseconds to wait after the first failure.
    pub closed spec fn base(self) -> nat {
        self.base_delay_ms as nat
    }

    /// The longest wait, in milliseconds.
    pub closed spec fn cap(self) -> nat {
        self.max_delay_ms as nat
    }

    /// The number of failures in a row at which the link gives up.
    pub closed spec fn budget(self) -> nat {
        self.max_attempts as nat
    }

    /// The invariant of every policy.
    pub open spec fn wf(self) -> bool {
        &&& 0 < self.base() <= self.cap() <= u64::MAX
        &&& 0 < self.budget() <= u32::MAX
    }

    /// Milliseconds to wait after `failures` failed attempts in a row, for
    /// `failures >= 1`: the base delay doubled `failures - 1` times, but no
    /// more than the cap.
    pub open spec fn delay(self, failures: nat) -> nat {
        let doublings = if failures == 0 {
            0
        } else {
            (failures - 1) as nat
        };
        if self.base() * pow2(doublings) <= self.cap() {
            self.base() * pow2(doublings)
        } else {
            self.cap()
        }
    }

    /// Builds a policy, refusing values that break the invariant.
    pub fn new(base_delay_ms: u64, max_delay_ms: u64, max_attempts: u32) -> (made: Result<
        BackoffPolicy,
        BackoffError,
    >)
        ensures
            match made {
                Ok(policy) => {
                    &&& policy.wf()
                    &&& policy.base() == base_delay_ms
                    &&& policy.cap() == max_delay_ms
                    &&& policy.budget() == max_attempts
                },
                Err(BackoffError::ZeroDelay) => base_delay_ms == 0,
                Err(BackoffError::CapBelowBase) => 0 < base_delay_ms && max_delay_ms < base_delay_ms,
                Err(BackoffError::NoAttempts) => {
                    &&& 0 < base_delay_ms <= max_delay_ms
                    &&& max_attempts == 0
                },
            },
    {
        if base_delay_ms == 0 {
            return Err(BackoffError::ZeroDelay);
        }
        if max_delay_ms < base_delay_ms {
            return Err(BackoffError::CapBelowBase);
        }
        if max_attempts == 0 {
            return Err(BackoffError::NoAttempts);
        }
        Ok(BackoffPolicy { base_delay_ms, max_delay_ms, max_attempts })
    }

    /// The stock policy: waits of 500 ms, 1 s, 2 s and so on up to 30 s, and
    /// a budget of 8 failures in a row.
    pub fn standard() -> (policy: BackoffPolicy)
        ensures
            policy.wf(),
            policy.base() == 500,
            policy.cap() == 30_000,
            policy.budget() == 8,
    {
        BackoffPolicy { base_delay_ms: 500, max_delay_ms: 30_000, max_attempts: 8 }
    }

    pub fn base_delay_ms(&self) -> (ms: u64)
        ensures
            ms == self.base(),
    {
        self.base_delay_ms
    }

    pub fn max_delay_ms(&self) -> (ms: u64)
        ensures
            ms == self.cap(),
    {
        self.max_delay_ms
    }

    pub fn max_attempts(&self) -> (attempts: u32)
        ensures
            attempts == self.budget(),
    {
        self.max_attempts
    }

    /// Milliseconds to wait after `failures` failed attempts in a row.
    pub fn delay_after(&self, failures: u32) -> (ms: u64)
        requires
            self.wf(),
        ensures
            ms == self.delay(failures as nat),
    {
        let cap = self.max_delay_ms;
        let mut ms: u64 = self.base_delay_ms;
        let mut done: u32 = 0;
        proof {
            lemma_pow2_pos(0);
            assert(pow2(0) == 1) by {
                vstd::arithmetic::power2::lemma2_to64();
            }
        }
        while done + 1 < failures && ms < cap
            invariant
                self.wf(),
                cap == self.cap(),
                failures == 0 ==> done == 0,
                failures > 0 ==> done < failures,
                ms == self.base() * pow2(done as nat) || (ms == cap && self.base() * pow2(done as nat)
                    > cap),
                ms <= cap,
            decreases failures - done,
        {
            proof {
                lemma_pow2_unfold((done + 1) as nat);
                assert(self.base() * pow2((done + 1) as nat) == 2 * (self.base() * pow2(
                    done as nat,
                ))) by (nonlinear_arith)
                    requires
                        pow2((done + 1) as nat) == 2 * pow2(done as nat),
                ;
            }
            if ms > cap / 2 {
                ms = cap;
            } else {
                ms = ms * 2;
            }
            done = done + 1;
        }
        proof {
            let doublings = if failures == 0 {
                0
            } else {
                (failures - 1) as nat
            };
            if done < doublings {
                // the loop stopped at the cap: more doublings stay above it
                lemma_pow2_strictly_increases(done as nat, doublings);
                assert(self.base() * pow2(done as nat) <= self.base() * pow2(doublings))
                    by (nonlinear_arith)
                    requires
                        pow2(done as nat) < pow2(doublings),
                        self.base() > 0,
                ;
            }
        }
        ms
    }
}

/// The waits never shrink from one failure to the next, never exceed the
/// cap, and are never shorter than the base delay.
pub proof fn backoff_grows_up_to_the_cap(policy: BackoffPolicy, failures: nat)
    requires
        policy.wf(),
    ensures
        policy.base() <= policy.delay(failures) <= policy.cap(),
        policy.delay(failures) <= policy.delay(failures + 1),
        policy.delay(failures + 1) <= 2 * policy.delay(failures),
        policy.delay(1) == policy.base(),
{
    let doublings = if failures == 0 {
        0
    } else {
        (failures - 1) as nat
    };
    lemma_pow2_pos(doublings);
    assert(policy.base() * pow2(doublings) >= policy.base()) by (nonlinear_arith)
        requires
            pow2(doublings) >= 1,
    ;
    assert(pow2(0) == 1) by {
        vstd::arithmetic::power2::lemma2_to64();
    }
    assert(policy.base() * 1 == policy.base());
    if failures >= 1 {
        lemma_pow2_unfold(failures);
        assert(policy.base() * pow2(failures) == 2 * (policy.base() * pow2(doublings)))
            by (nonlinear_arith)
            requires
                pow2(failures) == 2 * pow2(doublings),
        ;
    }
}

} // verus!
