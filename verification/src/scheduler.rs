#![allow(non_camel_case_types)]
use vstd::prelude::*;
use vstd::arithmetic::div_mod::{
    lemma_fundamental_div_mod,
    lemma_fundamental_div_mod_converse,
    lemma_mod_bound,
};
use crate::basemodel::{Model, ModelView};

verus! {

/// Lifecycle state of the scheduler. The ordinal of each state is part of
/// the external ABI; see `ordinal`.
#[derive(Copy, Clone, PartialEq, Eq, Structural, Debug)]
pub enum SchedulerState {
    CONFIG,
    INITIALIZING,
    INITIALIZED,
    RUNNING,
    PAUSED,
    ENDING,
    ENDED,
    ERRORED,
}

/// The ABI ordinal of a scheduler state.
pub open spec fn spec_ordinal(s: SchedulerState) -> int {
    match s {
        SchedulerState::CONFIG => 0,
        SchedulerState::INITIALIZING => 1,
        SchedulerState::INITIALIZED => 2,
        SchedulerState::RUNNING => 3,
        SchedulerState::PAUSED => 4,
        SchedulerState::ENDING => 5,
        SchedulerState::ENDED => 6,
        SchedulerState::ERRORED => 7,
    }
}

impl SchedulerState {
    pub fn ordinal(self) -> (r: i32)
        ensures
            r == spec_ordinal(self),
    {
        match self {
            SchedulerState::CONFIG => 0,
            SchedulerState::INITIALIZING => 1,
            SchedulerState::INITIALIZED => 2,
            SchedulerState::RUNNING => 3,
            SchedulerState::PAUSED => 4,
            SchedulerState::ENDING => 5,
            SchedulerState::ENDED => 6,
            SchedulerState::ERRORED => 7,
        }
    }
}

/// The state transitions the scheduler may take: staying put, jumping to
/// ERRORED, or following the lifecycle chain
/// CONFIG -> INITIALIZING -> INITIALIZED -> (RUNNING <-> PAUSED)* -> ENDING -> ENDED.
pub open spec fn spec_state_edge(s: SchedulerState, t: SchedulerState) -> bool {
    ||| t == s
    ||| t == SchedulerState::ERRORED
    ||| (s == SchedulerState::CONFIG && t == SchedulerState::INITIALIZING)
    ||| (s == SchedulerState::INITIALIZING && t == SchedulerState::INITIALIZED)
    ||| (s == SchedulerState::INITIALIZED && t == SchedulerState::RUNNING)
    ||| (s == SchedulerState::INITIALIZED && t == SchedulerState::ENDING)
    ||| (s == SchedulerState::RUNNING && t == SchedulerState::PAUSED)
    ||| (s == SchedulerState::PAUSED && t == SchedulerState::RUNNING)
    ||| (s == SchedulerState::RUNNING && t == SchedulerState::ENDING)
    ||| (s == SchedulerState::PAUSED && t == SchedulerState::ENDING)
    ||| (s == SchedulerState::ENDING && t == SchedulerState::ENDED)
    ||| (s == SchedulerState::RUNNING && t == SchedulerState::ENDED)
}

/// Position of a state along the lifecycle; RUNNING and PAUSED share a
/// phase, ERRORED is terminal.
pub open spec fn spec_phase(s: SchedulerState) -> int {
    match s {
        SchedulerState::CONFIG => 0,
        SchedulerState::INITIALIZING => 1,
        SchedulerState::INITIALIZED => 2,
        SchedulerState::RUNNING => 3,
        SchedulerState::PAUSED => 3,
        SchedulerState::ENDING => 4,
        SchedulerState::ENDED => 5,
        SchedulerState::ERRORED => 6,
    }
}

/// Every allowed transition moves forward along the lifecycle: the phase
/// never decreases, CONFIG is never re-entered, and ENDED and ERRORED are
/// terminal.
pub proof fn lemma_state_order(s: SchedulerState, t: SchedulerState)
    requires
        spec_state_edge(s, t),
    ensures
        spec_phase(s) <= spec_phase(t),
        t == SchedulerState::CONFIG ==> s == SchedulerState::CONFIG,
        s == SchedulerState::ENDED ==> t == SchedulerState::ENDED || t == SchedulerState::ERRORED,
        s == SchedulerState::ERRORED ==> t == SchedulerState::ERRORED,
{
}

/// A model wrapped with its schedule: it steps on the frames where
/// `counter` is zero; the counter starts at `offset % divisor` and advances
/// by one per frame, wrapping at `divisor`.
pub struct ScheduledObject {
    pub model: Model,
    pub divisor: i64,
    pub offset: i64,
    pub counter: i64,
}

/// Spec-level state of a scheduled object.
#[verifier::ext_equal]
pub struct ObjView {
    pub model: ModelView,
    pub divisor: int,
    pub offset: int,
    pub counter: int,
}

impl View for ScheduledObject {
    type V = ObjView;

    open spec fn view(&self) -> ObjView {
        ObjView {
            model: self.model@,
            divisor: self.divisor as int,
            offset: self.offset as int,
            counter: self.counter as int,
        }
    }
}

/// A well-formed schedule: divisor at least one, offset not negative, and
/// the counter inside `[0, divisor)`.
pub open spec fn spec_obj_wf(o: ObjView) -> bool {
    &&& 1 <= o.divisor
    &&& 0 <= o.offset
    &&& 0 <= o.counter < o.divisor
}

/// The counter after one frame.
pub open spec fn spec_next_counter(c: int, d: int) -> int {
    if c + 1 == d {
        0
    } else {
        c + 1
    }
}

/// The counter after `k` frames, starting from `c0` with divisor `d`.
pub open spec fn spec_counter_at(c0: int, d: int, k: nat) -> int
    decreases k,
{
    if k == 0 {
        c0
    } else {
        spec_next_counter(spec_counter_at(c0, d, (k - 1) as nat), d)
    }
}

/// Whether an object with initial counter `c0` and divisor `d` fires (steps
/// its model) on frame `k`, counting frames from zero.
pub open spec fn spec_fires(c0: int, d: int, k: nat) -> bool {
    spec_counter_at(c0, d, k) == 0
}

/// How many of the frames `0 .. n` the object fires on.
pub open spec fn spec_fire_count(c0: int, d: int, n: nat) -> nat
    decreases n,
{
    if n == 0 {
        0nat
    } else {
        spec_fire_count(c0, d, (n - 1) as nat) + if spec_fires(c0, d, (n - 1) as nat) {
            1nat
        } else {
            0nat
        }
    }
}

/// The counter after `k` frames is the initial counter advanced by `k`,
/// modulo the divisor.
pub proof fn lemma_counter_at_mod(c0: int, d: int, k: nat)
    requires
        1 <= d,
        0 <= c0 < d,
    ensures
        spec_counter_at(c0, d, k) == (c0 + k) % d,
    decreases k,
{
    if k == 0 {
        lemma_fundamental_div_mod_converse(c0, d, 0, c0);
    } else {
        let n = (k - 1) as nat;
        lemma_counter_at_mod(c0, d, n);
        let t = (c0 + n) % d;
        lemma_fundamental_div_mod(c0 + n, d);
        lemma_mod_bound(c0 + n, d);
        let q = (c0 + n) / d;
        assert(c0 + n == d * q + t);
        if t + 1 == d {
            assert(d * q + d == (q + 1) * d) by (nonlinear_arith);
            lemma_fundamental_div_mod_converse(c0 + k, d, q + 1, 0);
        } else {
            assert(d * q + (t + 1) == q * d + (t + 1)) by (nonlinear_arith);
            lemma_fundamental_div_mod_converse(c0 + k, d, q, t + 1);
        }
    }
}

/// An object fires on frame `k` exactly when `k` lands on its phase:
/// `(c0 + k) % d == 0`.
pub proof fn lemma_fires_iff(c0: int, d: int, k: nat)
    requires
        1 <= d,
        0 <= c0 < d,
    ensures
        spec_fires(c0, d, k) == ((c0 + k) % d == 0),
{
    lemma_counter_at_mod(c0, d, k);
}

/// Incrementing the dividend steps the quotient exactly when the new
/// dividend is a multiple of the divisor.
proof fn lemma_div_step(x: int, d: int)
    requires
        1 <= d,
    ensures
        (x + 1) % d == 0 ==> (x + 1) / d == x / d + 1,
        (x + 1) % d != 0 ==> (x + 1) / d == x / d && (x + 1) % d == x % d + 1,
{
    lemma_fundamental_div_mod(x, d);
    lemma_mod_bound(x, d);
    let q = x / d;
    let t = x % d;
    assert(x == d * q + t);
    if t + 1 == d {
        assert(d * q + d == (q + 1) * d) by (nonlinear_arith);
        lemma_fundamental_div_mod_converse(x + 1, d, q + 1, 0);
    } else {
        assert(d * q + (t + 1) == q * d + (t + 1)) by (nonlinear_arith);
        lemma_fundamental_div_mod_converse(x + 1, d, q, t + 1);
    }
}

/// Closed form for the number of firings: over the frames `0 .. n`, an
/// object with initial counter `c0` and divisor `d` fires exactly
/// `(n + c0 - 1) / d - (c0 - 1) / d` times.
pub proof fn lemma_fire_count_closed(c0: int, d: int, n: nat)
    requires
        1 <= d,
        0 <= c0 < d,
    ensures
        spec_fire_count(c0, d, n) == (n + c0 - 1) / d - (c0 - 1) / d,
    decreases n,
{
    if n == 0 {
        lemma_fundamental_div_mod(c0 - 1, d);
    } else {
        let m = (n - 1) as nat;
        lemma_fire_count_closed(c0, d, m);
        lemma_fires_iff(c0, d, m);
        lemma_div_step(c0 + m - 1, d);
    }
}

/// The special case the schedule is usually stated with: an object whose
/// offset is a multiple of its divisor fires first on frame zero and
/// `(n + d - 1) / d` times over `n` frames.
pub proof fn lemma_fire_count_aligned(d: int, n: nat)
    requires
        1 <= d,
    ensures
        spec_fire_count(0, d, n) == (n + d - 1) / d,
        n > 0 ==> spec_fires(0, d, 0),
{
    lemma_fire_count_closed(0, d, n);
    lemma_fundamental_div_mod_converse(-1, d, -1, d - 1);
    assert((n + d - 1) / d == (n - 1) / d + 1) by {
        lemma_fundamental_div_mod((n - 1) as int, d);
        lemma_mod_bound((n - 1) as int, d);
        let q = (n - 1) as int / d;
        let t = (n - 1) as int % d;
        assert(d * q + t + d == (q + 1) * d + t) by (nonlinear_arith);
        lemma_fundamental_div_mod_converse(n + d - 1, d, q + 1, t);
    }
}

/// The first frame an object fires on is `(d - c0) % d`: frame zero when
/// its counter starts at zero, frame `d - c0` otherwise.
pub proof fn lemma_first_fire(c0: int, d: int, k: nat)
    requires
        1 <= d,
        0 <= c0 < d,
    ensures
        c0 == 0 ==> spec_fires(c0, d, 0),
        c0 != 0 ==> (k < d - c0 ==> !spec_fires(c0, d, k)),
        c0 != 0 ==> spec_fires(c0, d, (d - c0) as nat),
{
    lemma_fires_iff(c0, d, k);
    if c0 == 0 {
        lemma_fires_iff(c0, d, 0);
        lemma_fundamental_div_mod_converse(0, d, 0, 0);
    } else {
        lemma_fires_iff(c0, d, (d - c0) as nat);
        lemma_fundamental_div_mod_converse(d, d, 1, 0);
        if k < d - c0 {
            lemma_fundamental_div_mod_converse(c0 + k, d, 0, c0 + k);
        }
    }
}

} // verus!
