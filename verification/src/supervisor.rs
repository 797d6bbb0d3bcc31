//! The supervisors that carry out rebinding decisions against capture workers.
//!
//! A supervisor keeps track of which worker serves which binding, turns what workers,
//! devices and timers report into observations, and turns the effects of each decision
//! into commands. It owns no thread and makes no system call: whoever drives it performs
//! the commands and hands the reports back.

pub mod macos;
pub mod windows;
pub mod workers;

use vstd::prelude::*;

verus! {

/// The delay before a retry, in milliseconds: it doubles with every attempt, up to half
/// a minute.
pub open spec fn backoff_ms(attempt: u32) -> int {
    vstd::math::min(500 * vstd::arithmetic::power2::pow2(attempt as nat) as int, 30_000)
}

/// The delay before a retry, in milliseconds.
pub fn backoff_for_attempt(attempt: u32) -> (ms: u64)
    ensures
        ms == backoff_ms(attempt),
{
    // From the sixth doubling on, the delay is past its cap.
    let doublings: u32 = if attempt < 6 {
        attempt
    } else {
        6
    };
    let mut delay: u64 = 500;
    let mut i: u32 = 0;
    proof {
        vstd::arithmetic::power2::lemma2_to64();
    }
    while i < doublings
        invariant
            i <= doublings <= 6,
            delay == 500 * vstd::arithmetic::power2::pow2(i as nat),
            delay <= 32_000,
        decreases doublings - i,
    {
        proof {
            vstd::arithmetic::power2::lemma2_to64();
            vstd::arithmetic::power2::lemma_pow2_unfold((i + 1) as nat);
            if i < 5 {
                vstd::arithmetic::power2::lemma_pow2_strictly_increases(i as nat, 5);
            }
        }
        delay = delay * 2;
        i = i + 1;
    }
    proof {
        if attempt > 6 {
            vstd::arithmetic::power2::lemma_pow2_strictly_increases(6, attempt as nat);
        }
    }
    if delay <= 30_000 {
        delay
    } else {
        30_000
    }
}

/// The first attempt waits half a second, and each one after it waits twice as long as the
/// one before, up to half a minute.
pub proof fn law_backoff_doubles_to_its_cap(attempt: u32)
    requires
        attempt < u32::MAX,
    ensures
        backoff_ms(0) == 500,
        backoff_ms((attempt + 1) as u32) == vstd::math::min(2 * backoff_ms(attempt), 30_000),
{
    vstd::arithmetic::power2::lemma2_to64();
    vstd::arithmetic::power2::lemma_pow2_unfold((attempt + 1) as nat);
}

/// A later attempt never waits for less, and no attempt waits for more than half a
/// minute.
pub proof fn law_backoff_grows_to_its_cap(attempt: u32, later: u32)
    requires
        attempt <= later,
    ensures
        500 <= backoff_ms(attempt) <= backoff_ms(later) <= 30_000,
{
    vstd::arithmetic::power2::lemma_pow2_pos(attempt as nat);
    if attempt < later {
        vstd::arithmetic::power2::lemma_pow2_strictly_increases(attempt as nat, later as nat);
    }
}

} // verus!
