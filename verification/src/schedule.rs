//! Ramp-up schedule: how many virtual users are active at each tick, and the
//! think-time pacing between a user's transactions.
//!
//! Users are started incrementally, `ramp_per_tick` per tick of the scheduler
//! clock, rather than all at once, so the offered request rate rises as a ramp
//! instead of a step function.

use vstd::prelude::*;

verus! {

/// How many virtual users the scheduler keeps active at `tick` (0-based):
/// `ramp_per_tick` users are started on every tick until `total_users` is
/// reached, and the population never exceeds `total_users`.
pub open spec fn active_user_target_spec(total_users: u64, ramp_per_tick: u64, tick: u64) -> int {
    if ramp_per_tick * (tick + 1) >= total_users {
        total_users as int
    } else {
        ramp_per_tick * (tick + 1)
    }
}

/// Number of ticks needed before the whole population is active: the ramp-up
/// window, `ceil(total_users / ramp_per_tick)`.
pub open spec fn ramp_window(total_users: u64, ramp_per_tick: u64) -> int
    recommends
        ramp_per_tick >= 1,
{
    (total_users + ramp_per_tick - 1) / (ramp_per_tick as int)
}

/// Active-population target at `tick`, as the scheduler computes it.
pub fn active_user_target(total_users: u64, ramp_per_tick: u64, tick: u64) -> (n: u64)
    requires
        ramp_per_tick >= 1,
    ensures
        n == active_user_target_spec(total_users, ramp_per_tick, tick),
        n <= total_users,
{
    assert((ramp_per_tick as int) * ((tick as int) + 1) < 0x1_0000_0000_0000_0000_0000_0000_0000_0000int)
        by (nonlinear_arith)
        requires
            ramp_per_tick <= 0xffff_ffff_ffff_ffffu64,
            tick <= 0xffff_ffff_ffff_ffffu64,
        ;
    let started: u128 = (ramp_per_tick as u128) * (tick as u128 + 1);
    if started >= total_users as u128 {
        total_users
    } else {
        started as u64
    }
}

/// The number of concurrently active virtual users never exceeds the
/// configured total, at any tick.
pub proof fn lemma_ramp_never_exceeds_target(total_users: u64, ramp_per_tick: u64, tick: u64)
    ensures
        active_user_target_spec(total_users, ramp_per_tick, tick) <= total_users,
{
}

/// The active population only grows while ramping up: a later tick never has
/// fewer users active than an earlier one.
pub proof fn lemma_ramp_monotonic(total_users: u64, ramp_per_tick: u64, t1: u64, t2: u64)
    requires
        t1 <= t2,
    ensures
        active_user_target_spec(total_users, ramp_per_tick, t1)
            <= active_user_target_spec(total_users, ramp_per_tick, t2),
{
    assert(ramp_per_tick * (t1 + 1) <= ramp_per_tick * (t2 + 1)) by (nonlinear_arith)
        requires
            t1 <= t2,
        ;
}

/// The full population is active once the ramp-up window has elapsed: from
/// tick `ramp_window - 1` on, the target equals `total_users`.
pub proof fn lemma_ramp_reaches_target(total_users: u64, ramp_per_tick: u64, tick: u64)
    requires
        ramp_per_tick >= 1,
        tick + 1 >= ramp_window(total_users, ramp_per_tick),
    ensures
        active_user_target_spec(total_users, ramp_per_tick, tick) == total_users,
{
    let r = ramp_per_tick as int;
    let a = total_users + ramp_per_tick - 1;
    let q = a / r;
    vstd::arithmetic::div_mod::lemma_fundamental_div_mod(a, r);
    assert(r * q >= total_users);
    assert(r * q <= r * (tick + 1)) by (nonlinear_arith)
        requires
            q <= tick + 1,
            r >= 1,
        ;
}

/// Think-time for one pause between transactions: `draw` (an arbitrary random
/// value) mapped uniformly onto the configured `[min, max]` range.
pub open spec fn think_time_spec(min: u64, max: u64, draw: u64) -> int
    recommends
        min <= max,
        max - min < u64::MAX,
{
    min + (draw as int) % (max - min + 1)
}

/// Picks the pause before a user's next transaction from the configured
/// bounds; the result always lies within them.
pub fn think_time(min: u64, max: u64, draw: u64) -> (d: u64)
    requires
        min <= max,
        max - min < u64::MAX,
    ensures
        d == think_time_spec(min, max, draw),
        min <= d <= max,
{
    let span: u64 = max - min + 1;
    min + draw % span
}

} // verus!
