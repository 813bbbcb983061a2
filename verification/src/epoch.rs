use vstd::prelude::*;

verus! {

/// Monotonic simulation clock: an integer tick count that wraps at
/// `rollover`, bumping `epoch` once per wrap.
pub struct EpochTime {
    pub epoch: i64,
    pub time: i64,
    pub rollover: i64,
}

/// Tick count after one `increment` by `s` of a clock holding `t` ticks.
pub open spec fn spec_inc_time(t: int, s: int, r: int) -> int {
    if t + s >= r {
        t + s - r
    } else {
        t + s
    }
}

/// Epoch after one `increment` by `s` of a clock holding `t` ticks in epoch `e`.
pub open spec fn spec_inc_epoch(e: int, t: int, s: int, r: int) -> int {
    if t + s >= r {
        e + 1
    } else {
        e
    }
}

impl EpochTime {
    /// A well-formed clock keeps its tick count within `[0, rollover)`.
    pub open spec fn wf(self) -> bool {
        &&& 1 <= self.rollover
        &&& 0 <= self.time < self.rollover
    }

    pub fn new() -> (r: EpochTime)
        ensures
            r.wf(),
            r.epoch == 0,
            r.time == 0,
            r.rollover == i64::MAX,
    {
        EpochTime { epoch: 0, time: 0, rollover: i64::MAX }
    }

    /// Advance the clock by `steps` ticks, wrapping once into the next epoch
    /// when the count reaches `rollover`.
    pub fn increment(&mut self, steps: i64)
        requires
            old(self).wf(),
            0 <= steps <= old(self).rollover,
            old(self).time + steps <= i64::MAX,
            old(self).epoch < i64::MAX,
        ensures
            final(self).wf(),
            final(self).rollover == old(self).rollover,
            final(self).time == spec_inc_time(
                old(self).time as int,
                steps as int,
                old(self).rollover as int,
            ),
            final(self).epoch == spec_inc_epoch(
                old(self).epoch as int,
                old(self).time as int,
                steps as int,
                old(self).rollover as int,
            ),
    {
        self.time = self.time + steps;
        if self.time >= self.rollover {
            self.time = self.time - self.rollover;
            self.epoch = self.epoch + 1;
        }
    }
}

/// The (epoch, tick) pair a fresh clock with rollover `r` holds after `k`
/// single-tick increments.
pub open spec fn clock_after(k: nat, r: int) -> (int, int)
    decreases k,
{
    if k == 0 {
        (0, 0)
    } else {
        let prev = clock_after((k - 1) as nat, r);
        (spec_inc_epoch(prev.0, prev.1, 1, r), spec_inc_time(prev.1, 1, r))
    }
}

/// A clock with rollover `r` that has been incremented one tick at a time `k`
/// times holds exactly `k / r` full epochs and `k % r` ticks.
pub proof fn lemma_clock_div_mod(k: nat, r: int)
    requires
        1 <= r,
    ensures
        clock_after(k, r).0 == k as int / r,
        clock_after(k, r).1 == k as int % r,
    decreases k,
{
    if k == 0 {
        vstd::arithmetic::div_mod::lemma_fundamental_div_mod_converse(0, r, 0, 0);
    } else {
        let n = (k - 1) as nat;
        lemma_clock_div_mod(n, r);
        let e = n as int / r;
        let t = n as int % r;
        vstd::arithmetic::div_mod::lemma_fundamental_div_mod(n as int, r);
        vstd::arithmetic::div_mod::lemma_mod_bound(n as int, r);
        assert(n as int == r * e + t);
        if t + 1 >= r {
            assert(r * e + r == (e + 1) * r) by (nonlinear_arith);
            vstd::arithmetic::div_mod::lemma_fundamental_div_mod_converse(k as int, r, e + 1, 0);
        } else {
            assert(r * e + (t + 1) == e * r + (t + 1)) by (nonlinear_arith);
            vstd::arithmetic::div_mod::lemma_fundamental_div_mod_converse(k as int, r, e, t + 1);
        }
    }
}

} // verus!
