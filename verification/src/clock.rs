//! The time base: a sample counter that runs through `0..rate`.
//!
//! Elapsed time is `sample / rate` seconds. The counter wraps at the rate, so
//! elapsed time stays inside the unit interval, every curve is evaluated
//! inside its domain, and whatever the curves modulate repeats from second to
//! second.

use vstd::prelude::*;
use vstd::arithmetic::div_mod::{
    lemma_add_mod_noop,
    lemma_mod_bound,
    lemma_mod_self_0,
    lemma_mod_twice,
    lemma_small_mod,
};

verus! {

/// The counter `n` samples after `start`, at `rate` samples per second: their
/// sum, reduced modulo the rate. After no samples it is `start` itself where
/// that is below the rate, and `start` reduced where it is not.
pub open spec fn tick(start: u32, rate: u32, n: nat) -> u32 {
    ((start as int + n as int) % (rate as int)) as u32
}

/// Advances the counter by one sample and wraps it at the rate.
pub fn advance(sample: u32, rate: u32) -> (next: u32)
    requires
        rate > 0,
    ensures
        next == tick(sample, rate, 1),
        next < rate,
        sample + 1 < rate ==> next == sample + 1,
        sample + 1 == rate ==> next == 0,
{
    let wide: u64 = (sample as u64 + 1) % (rate as u64);
    proof {
        if sample + 1 < rate {
            lemma_small_mod((sample + 1) as nat, rate as nat);
        }
        if sample + 1 == rate {
            lemma_mod_self_0(rate as int);
        }
    }
    wide as u32
}

/// Brings a counter below the rate. A counter that is below it already is
/// left as it is.
pub fn settle(sample: u32, rate: u32) -> (settled: u32)
    requires
        rate > 0,
    ensures
        settled == tick(sample, rate, 0),
        settled < rate,
        sample < rate ==> settled == sample,
{
    proof {
        if sample < rate {
            lemma_small_mod(sample as nat, rate as nat);
        }
    }
    sample % rate
}

/// The counter is always below the rate, so that elapsed time is below one
/// second.
pub proof fn lemma_tick_below_rate(start: u32, rate: u32, n: nat)
    requires
        rate > 0,
    ensures
        tick(start, rate, n) < rate,
{
    lemma_mod_bound(start as int + n as int, rate as int);
}

/// A counter below the rate has not moved after no samples.
pub proof fn lemma_tick_rests(start: u32, rate: u32)
    requires
        start < rate,
    ensures
        tick(start, rate, 0) == start,
{
    lemma_small_mod(start as nat, rate as nat);
}

/// Steps add up: `m` samples and then `n` more are `m + n` samples.
pub proof fn lemma_tick_split(start: u32, rate: u32, m: nat, n: nat)
    requires
        rate > 0,
    ensures
        tick(tick(start, rate, m), rate, n) == tick(start, rate, m + n),
{
    let r = rate as int;
    let a = start as int + m as int;
    lemma_mod_bound(a, r);
    // (a % r + n) % r == (a + n) % r, both being (a % r + n % r) % r
    lemma_add_mod_noop(a, n as int, r);
    lemma_add_mod_noop(a % r, n as int, r);
    lemma_mod_twice(a, r);
}

/// The time base is periodic: from any value below the rate, `rate` samples
/// lead back to that value. In particular a counter at zero is at zero again
/// after one second of samples.
pub proof fn lemma_tick_full_cycle(start: u32, rate: u32)
    requires
        rate > 0,
        start < rate,
    ensures
        tick(start, rate, rate as nat) == start,
        tick(0, rate, rate as nat) == 0,
{
    assert((start + rate) % (rate as int) == start) by (nonlinear_arith)
        requires
            0 <= start < rate,
    ;
    assert((0 + rate) % (rate as int) == 0) by (nonlinear_arith)
        requires
            rate > 0,
    ;
}

} // verus!
