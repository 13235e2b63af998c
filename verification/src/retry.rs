//! The retry budget of a primitive call and the wait before each new try.
//!
//! Without a budget nothing is tried twice. With one, only a transient
//! failure is tried again, after a wait that doubles from try to try up to a
//! ceiling.

use crate::remote::ErrorClass;
use vstd::prelude::*;

verus! {

/// How often a failed call is made again, and how long to wait before it.
#[derive(Clone, Copy, Debug, PartialEq, Eq, Structural)]
pub struct RetryPolicy {
    /// The number of further tries that one call may get.
    pub budget: u32,
    /// The wait before the first further try, in milliseconds.
    pub base_delay_ms: u64,
    /// The longest wait, in milliseconds.
    pub max_delay_ms: u64,
}

/// `base` doubled `times` times.
pub open spec fn doubled(base: nat, times: nat) -> nat
    decreases times,
{
    if times == 0 {
        base
    } else {
        2 * doubled(base, (times - 1) as nat)
    }
}

/// Doubling more often never gives less.
pub proof fn lemma_doubled_grows(base: nat, fewer: nat, more: nat)
    requires
        fewer <= more,
    ensures
        doubled(base, fewer) <= doubled(base, more),
    decreases more,
{
    if fewer < more {
        lemma_doubled_grows(base, fewer, (more - 1) as nat);
    }
}

impl RetryPolicy {
    /// The wait before the further try number `attempt`, counted from zero.
    pub open spec fn delay(self, attempt: nat) -> nat {
        let wait = doubled(self.base_delay_ms as nat, attempt);
        if wait < self.max_delay_ms {
            wait
        } else {
            self.max_delay_ms as nat
        }
    }

    /// A call that has had `attempt` further tries and failed with `class`
    /// gets one more.
    pub open spec fn permits(self, attempt: u32, class: ErrorClass) -> bool {
        attempt < self.budget && class.transient()
    }

    /// The policy that tries nothing twice.
    pub fn none() -> (r: RetryPolicy)
        ensures
            r == (RetryPolicy { budget: 0, base_delay_ms: 0, max_delay_ms: 0 }),
            forall|attempt: u32, class: ErrorClass| !r.permits(attempt, class),
    {
        RetryPolicy { budget: 0, base_delay_ms: 0, max_delay_ms: 0 }
    }

    /// The wait, in milliseconds, before the further try number `attempt`.
    pub fn backoff_delay(&self, attempt: u32) -> (r: u64)
        ensures
            r == self.delay(attempt as nat),
    {
        let cap: u64 = self.max_delay_ms;
        let mut wait: u64 = self.base_delay_ms;
        if wait == 0 {
            proof {
                lemma_doubled_zero(attempt as nat);
            }
            return 0;
        }
        let mut k: u32 = 0;
        while k < attempt && wait < cap
            invariant
                k <= attempt,
                wait == doubled(self.base_delay_ms as nat, k as nat),
                cap == self.max_delay_ms,
                wait > 0,
            decreases attempt - k,
        {
            if wait > cap / 2 {
                proof {
                    lemma_doubled_grows(self.base_delay_ms as nat, (k + 1) as nat, attempt as nat);
                }
                return cap;
            }
            wait = wait * 2;
            k += 1;
        }
        proof {
            lemma_doubled_grows(self.base_delay_ms as nat, k as nat, attempt as nat);
        }
        if wait < cap {
            wait
        } else {
            cap
        }
    }

    /// Decides what follows a failure of class `class` of a call that has had
    /// `attempt` further tries: the wait before the next try, or `None` where
    /// the failure stands.
    pub fn decide(&self, attempt: u32, class: ErrorClass) -> (r: Option<u64>)
        ensures
            r == if self.permits(attempt, class) {
                Some(self.delay(attempt as nat) as u64)
            } else {
                None
            },
    {
        if attempt < self.budget && class.is_transient() {
            Some(self.backoff_delay(attempt))
        } else {
            None
        }
    }
}

/// Nothing doubled is nothing.
pub proof fn lemma_doubled_zero(times: nat)
    ensures
        doubled(0, times) == 0,
    decreases times,
{
    if times > 0 {
        lemma_doubled_zero((times - 1) as nat);
    }
}

} // verus!
