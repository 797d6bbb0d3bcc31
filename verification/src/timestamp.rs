//! Converts presentation timestamps into nanoseconds on the clock they are anchored to.
//!
//! Such a timestamp is a rational number of seconds, `value / timescale`, so the
//! conversion is plain integer arithmetic and needs no clock of its own.

use vstd::prelude::*;

verus! {

/// A rational time value: `value / timescale` seconds.
#[derive(Debug, Clone, Copy, PartialEq, Eq, Structural)]
pub struct CMTimeLike {
    pub value: i64,
    pub timescale: i32,
}

/// The whole nanoseconds that a time at or after the epoch stands for.
pub open spec fn nanoseconds(time: CMTimeLike) -> int
    recommends
        time.timescale > 0,
        time.value >= 0,
{
    time.value * 1_000_000_000 / (time.timescale as int)
}

/// Whether a time is a count of nanoseconds that 64 bits can hold.
pub open spec fn is_countable(time: CMTimeLike) -> bool {
    time.timescale > 0 && time.value >= 0 && nanoseconds(time) <= u64::MAX
}

/// Converts a rational time value into nanoseconds since whatever epoch the clock it
/// is anchored to uses. Returns `None` for an invalid (non-positive) timescale, for a
/// negative time, and for a time that an unsigned count of nanoseconds cannot hold.
pub fn cmtime_to_ns(time: CMTimeLike) -> (ns: Option<u64>)
    ensures
        ns is None <==> time.timescale <= 0 || time.value < 0 || nanoseconds(time) > u64::MAX,
        ns matches Some(ns) ==> ns == nanoseconds(time),
{
    if time.timescale <= 0 || time.value < 0 {
        return None;
    }
    let scaled: u128 = time.value as u128 * 1_000_000_000;
    let ns: u128 = scaled / (time.timescale as u128);
    if ns <= u64::MAX as u128 {
        Some(ns as u64)
    } else {
        None
    }
}

/// Later times never convert to earlier counts, and whatever comes before a time that
/// converts, back to the clock's epoch, converts too.
pub proof fn law_conversion_is_monotone(earlier: CMTimeLike, later: CMTimeLike)
    requires
        earlier.timescale == later.timescale,
        earlier.timescale > 0,
        0 <= earlier.value <= later.value,
    ensures
        nanoseconds(earlier) <= nanoseconds(later),
        is_countable(later) ==> is_countable(earlier),
{
    vstd::arithmetic::div_mod::lemma_div_is_ordered(
        earlier.value * 1_000_000_000,
        later.value * 1_000_000_000,
        earlier.timescale as int,
    );
}

/// A time is as many whole nanoseconds as have passed by then: scaled back up it does not
/// exceed the time, and one nanosecond more would.
pub proof fn law_nanoseconds_are_whole(time: CMTimeLike)
    requires
        time.timescale > 0,
        time.value >= 0,
    ensures
        0 <= nanoseconds(time) * time.timescale <= time.value * 1_000_000_000 < nanoseconds(time)
            * time.timescale + time.timescale,
        is_countable(time) <==> time.value * 1_000_000_000 < (u64::MAX + 1) * time.timescale,
{
    let n = time.value * 1_000_000_000;
    let d = time.timescale as int;
    vstd::arithmetic::div_mod::lemma_fundamental_div_mod(n, d);
    vstd::arithmetic::div_mod::lemma_div_pos_is_pos(n, d);
    assert(d * (n / d) == (n / d) * d) by (nonlinear_arith);
    assert((n / d) * d >= 0) by (nonlinear_arith)
        requires
            n / d >= 0,
            d > 0,
    ;
    let q = n / d;
    let top = u64::MAX as int;
    assert(q <= top <==> n < (top + 1) * d) by (nonlinear_arith)
        requires
            q * d <= n < q * d + d,
            d > 0,
    ;
}

/// A time that lies before the epoch, or has no scale, is no count of nanoseconds.
pub proof fn law_times_before_the_epoch_do_not_count(time: CMTimeLike)
    requires
        time.value < 0 || time.timescale <= 0,
    ensures
        !is_countable(time),
{
}

} // verus!
