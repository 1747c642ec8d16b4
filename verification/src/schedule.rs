//! Sleeping until the next boundary of the refresh interval, so that updates
//! land on whole seconds and do not drift.

use vstd::prelude::*;

verus! {

/// Seconds between two updates of the status line.
pub const REFRESH_INTERVAL: u64 = 1;

/// Nanoseconds in a second.
pub const NANOS_PER_SECOND: u128 = 1_000_000_000;

/// The interval in nanoseconds; an interval of zero seconds counts as one.
pub open spec fn interval_nanos(interval_secs: u64) -> int {
    if interval_secs == 0 {
        1_000_000_000
    } else {
        interval_secs * 1_000_000_000
    }
}

/// How long to sleep, in nanoseconds, from `now_nanos` nanoseconds after the
/// epoch to the next boundary of the interval: up to the next whole second,
/// and from there the whole seconds that are left to a multiple of the
/// interval. A clock that stands on a boundary waits for the next one.
pub fn aligned_wait(now_nanos: u128, interval_secs: u64) -> (wait_nanos: u128)
    ensures
        wait_nanos == interval_nanos(interval_secs) - now_nanos as int % interval_nanos(
            interval_secs,
        ),
        0 < wait_nanos <= interval_nanos(interval_secs),
        (now_nanos + wait_nanos) % interval_nanos(interval_secs) == 0,
{
    let seconds: u128 = if interval_secs == 0 {
        1
    } else {
        interval_secs as u128
    };
    let step: u128 = seconds * NANOS_PER_SECOND;
    let past: u128 = now_nanos % step;
    proof {
        vstd::arithmetic::div_mod::lemma_fundamental_div_mod(now_nanos as int, step as int);
        let q = now_nanos as int / step as int;
        assert(now_nanos + (step - past) == (q + 1) * step) by (nonlinear_arith)
            requires
                now_nanos == step * q + past,
        ;
        vstd::arithmetic::div_mod::lemma_mod_multiples_basic(q + 1, step as int);
    }
    step - past
}

} // verus!
