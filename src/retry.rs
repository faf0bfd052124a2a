//! The retry policy shared by the scheduler and the connectors: exponential
//! backoff of 100 ms doubled at each retry.

use vstd::prelude::*;

verus! {

/// `2^n`.
pub open spec fn pow2(n: nat) -> nat
    decreases n,
{
    if n == 0 {
        1
    } else {
        2 * pow2((n - 1) as nat)
    }
}

/// Delay before the retry that follows failure number `retries` (counted
/// from 1): `100 ms * 2^(retries - 1)`.
pub open spec fn backoff(retries: nat) -> nat {
    100 * pow2((retries - 1) as nat)
}

/// Backoff delay in milliseconds after failure number `retries` (counted
/// from 1), saturating at `u64::MAX`.
pub fn backoff_ms(retries: u32) -> (r: u64)
    requires
        retries >= 1,
    ensures
        r == if backoff(retries as nat) <= u64::MAX {
            backoff(retries as nat)
        } else {
            u64::MAX as nat
        },
{
    let mut d: u64 = 100;
    let mut k: u32 = 1;
    while k < retries
        invariant
            1 <= k <= retries,
            d == if backoff(k as nat) <= u64::MAX {
                backoff(k as nat)
            } else {
                u64::MAX as nat
            },
        decreases retries - k,
    {
        proof {
            assert(pow2(k as nat) == 2 * pow2((k - 1) as nat));
        }
        if d <= u64::MAX / 2 {
            d = d * 2;
        } else {
            d = u64::MAX;
        }
        k = k + 1;
    }
    d
}

} // verus!

verus! {

/// `backoff(retries)`, or `u64::MAX` when that does not fit.
pub open spec fn capped_backoff(retries: nat) -> nat {
    if backoff(retries) <= u64::MAX {
        backoff(retries)
    } else {
        u64::MAX as nat
    }
}

/// `ms` is a backoff pause: `capped_backoff(k)` after some failure `k >= 1`.
pub open spec fn is_backoff(ms: u64) -> bool {
    exists|k: nat| k >= 1 && #[trigger] capped_backoff(k) == ms as nat
}

/// Attempts a retry loop makes at most: `max_retries`, but at least one.
pub open spec fn attempt_limit(max_retries: u32) -> nat {
    if max_retries == 0 {
        1
    } else {
        max_retries as nat
    }
}

/// What follows failure number `failures` (counted from 1) of a retry loop
/// allowed `max_retries` failures: `None` to give up, or the pause in
/// milliseconds before the next attempt.
pub fn after_failure(failures: u32, max_retries: u32) -> (r: Option<u64>)
    requires
        failures >= 1,
    ensures
        r is None <==> failures >= max_retries,
        r matches Some(ms) ==> ms as nat == capped_backoff(failures as nat),
{
    if failures >= max_retries {
        None
    } else {
        Some(backoff_ms(failures))
    }
}

} // verus!
