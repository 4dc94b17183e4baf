//! The spinning wait strategy's delay curve.
//!
//! An idle worker that repeatedly fails to take a task sleeps between
//! attempts; the sleep doubles with each consecutive failure and is capped at
//! a configured maximum. The functions here compute that duration exactly.

use vstd::prelude::*;

verus! {

use vstd::arithmetic::power2::pow2;
use vstd::arithmetic::power2::lemma_pow2_strictly_increases;
use vstd::arithmetic::power2::lemma_pow2_unfold;
use vstd::arithmetic::power2::lemma2_to64_rest;
use vstd::bits::lemma_u64_pow2_no_overflow;
use vstd::bits::lemma_u64_shl_is_mul;

/// The delay, in nanoseconds, after `failures` consecutive failed attempts to
/// take a task: `2^failures`, capped at `cap`.
pub open spec fn spec_backoff(failures: nat, cap: u64) -> u64 {
    if pow2(failures) <= cap {
        pow2(failures) as u64
    } else {
        cap
    }
}

/// Capped exponential back-off: doubles with each consecutive failure until
/// it reaches `cap`, and stays there.
pub fn backoff_nanos(failures: u32, cap: u64) -> (r: u64)
    ensures
        r == spec_backoff(failures as nat, cap),
{
    if failures >= 64 {
        proof {
            lemma2_to64_rest();
            if failures > 64 {
                lemma_pow2_strictly_increases(64, failures as nat);
            }
        }
        cap
    } else {
        proof {
            lemma_u64_pow2_no_overflow(failures as nat);
            lemma_u64_shl_is_mul(1u64, failures as u64);
        }
        let v: u64 = 1u64 << (failures as u64);
        if v <= cap {
            v
        } else {
            cap
        }
    }
}

/// Back-off clamped from both sides: never shorter than `floor`, never longer
/// than `cap` (the shutdown poll loop of the counter-based variant uses this).
pub fn clamped_backoff_nanos(failures: u32, floor: u64, cap: u64) -> (r: u64)
    ensures
        r == if spec_backoff(failures as nat, cap) >= floor {
            spec_backoff(failures as nat, cap)
        } else {
            floor
        },
{
    let v = backoff_nanos(failures, cap);
    if v >= floor {
        v
    } else {
        floor
    }
}

/// Until the cap is reached, one more consecutive failure exactly doubles the
/// delay.
pub proof fn lemma_backoff_doubles(failures: nat, cap: u64)
    requires
        pow2(failures + 1) <= cap,
    ensures
        spec_backoff(failures + 1, cap) == 2 * spec_backoff(failures, cap),
{
    lemma_pow2_unfold(failures + 1);
    lemma_pow2_strictly_increases(failures, failures + 1);
}

/// The delay never exceeds the cap, however long the idle streak.
pub proof fn lemma_backoff_capped(failures: nat, cap: u64)
    ensures
        spec_backoff(failures, cap) <= cap,
{
}

} // verus!
