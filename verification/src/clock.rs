//! Points in time, counted in nanoseconds from some moment in the past on a
//! clock that does not run backwards.

use vstd::prelude::*;

verus! {

/// The nanoseconds of a millisecond.
pub const NS_PER_MS: u128 = 1_000_000;

/// The nanoseconds of a second.
pub const NS_PER_SECOND: u128 = 1_000_000_000;

/// The time from `since` to `now`; none where `now` is no later.
pub open spec fn time_between(since: nat, now: nat) -> nat {
    if now >= since {
        (now - since) as nat
    } else {
        0
    }
}

/// The nanoseconds of `ms` milliseconds.
pub open spec fn ms_to_ns(ms: u64) -> nat {
    (ms * NS_PER_MS) as nat
}

/// The time from `since` to `now`; none where `now` is no later.
pub fn elapsed(since: u128, now: u128) -> (d: u128)
    ensures
        d == time_between(since as nat, now as nat),
{
    now.saturating_sub(since)
}

/// The nanoseconds of `ms` milliseconds.
pub fn millis(ms: u64) -> (ns: u128)
    ensures
        ns == ms_to_ns(ms),
{
    ms as u128 * NS_PER_MS
}

/// The time between two moments, added to the first, gives the second; it is
/// nothing where the second is no later. A millisecond has a million nanoseconds.
pub proof fn law_time_adds_up(since: nat, now: nat, ms: u64)
    ensures
        since <= now ==> since + time_between(since, now) == now,
        now <= since ==> time_between(since, now) == 0,
        ms_to_ns(ms) == ms * 1_000_000,
{
}

} // verus!
