#![allow(non_camel_case_types)]
use vstd::prelude::*;
use crate::basemodel::{Model, ModelView, spec_model_init, spec_model_step};
use crate::channel::RSISInterface;
use crate::connection::{Connection, spec_conn_step_status};
use crate::external::ExternalModel;
use crate::modellib::RuntimeStatus;
use crate::modellib::{BufferStruct, bytes_eq, MSG_UNKNOWN};
use crate::scheduler::{
    ObjView,
    ScheduledObject,
    SchedulerState,
    spec_next_counter,
    spec_obj_wf,
    spec_state_edge,
};
use crate::epoch::{spec_inc_epoch, spec_inc_time};

verus! {

/// Commands the facade and supervisor send toward the rate groups.
#[derive(Copy, Clone, PartialEq, Eq, Structural, Debug)]
pub enum ThreadCommand {
    INIT,
    EXECUTE(u64),
    PAUSE,
    SHUTDOWN,
}

/// Terminal responses a rate group reports back for a command.
#[derive(Copy, Clone, PartialEq, Eq, Structural, Debug)]
pub enum ThreadResult {
    OK(ThreadCommand),
    ERR(ThreadCommand, u32),
    END,
}

/// One rate group: the models it advances in insertion order, its nominal
/// rate in hertz, and how many frames it has executed since init.
pub struct ThreadState {
    pub frequency: u64,
    pub models: Vec<ScheduledObject>,
    pub frames: u64,
}

/// Spec-level state of a rate group.
#[verifier::ext_equal]
pub struct ThreadView {
    pub frequency: int,
    pub models: Seq<ObjView>,
    pub frames: int,
}

impl View for ThreadState {
    type V = ThreadView;

    open spec fn view(&self) -> ThreadView {
        ThreadView {
            frequency: self.frequency as int,
            models: self.models@.map_values(|o: ScheduledObject| o@),
            frames: self.frames as int,
        }
    }
}

/// All schedules of a group are well-formed and its model count fits the
/// index width of error reports.
pub open spec fn spec_group_wf(g: ThreadView) -> bool {
    &&& forall|i: int| 0 <= i < g.models.len() ==> spec_obj_wf(#[trigger] g.models[i])
    &&& g.models.len() <= u32::MAX
}

/// The frame counter after one more frame; it saturates rather than wraps.
pub open spec fn spec_inc_frames(f: int) -> int {
    if f < u64::MAX {
        f + 1
    } else {
        f
    }
}

/// The group's models after the first `n` of them have been offered `init`:
/// models are initialized in order until the first one reports ERROR, whose
/// index is returned.
pub open spec fn spec_group_init_upto(ms: Seq<ObjView>, n: int) -> (Seq<ObjView>, Option<int>)
    decreases n,
{
    if n <= 0 {
        (ms, None)
    } else {
        let prev = spec_group_init_upto(ms, n - 1);
        if prev.1 is Some {
            prev
        } else {
            let o = prev.0[n - 1];
            let r = spec_model_init(o.model);
            let ms2 = prev.0.update(n - 1, ObjView { model: r.0, ..o });
            if r.1 == RuntimeStatus::ERROR {
                (ms2, Some(n - 1))
            } else {
                (ms2, None)
            }
        }
    }
}

/// What `INIT` does to a whole group.
pub open spec fn spec_group_init(ms: Seq<ObjView>) -> (Seq<ObjView>, Option<int>) {
    spec_group_init_upto(ms, ms.len() as int)
}

/// The group and arena after the first `n` objects of one frame: each
/// object whose counter is zero steps its model, then every reached
/// object's counter advances; the first stepping model to report ERROR
/// stops the frame, and its index is returned.
pub open spec fn spec_frame_upto(ms: Seq<ObjView>, a: Seq<u8>, tick: int, n: int) -> (
    Seq<ObjView>,
    Seq<u8>,
    Option<int>,
)
    decreases n,
{
    if n <= 0 {
        (ms, a, None)
    } else {
        let prev = spec_frame_upto(ms, a, tick, n - 1);
        if prev.2 is Some {
            prev
        } else {
            let o = prev.0[n - 1];
            if o.counter == 0 {
                let r = spec_model_step(o.model, prev.1, tick);
                if r.2 == RuntimeStatus::ERROR {
                    (prev.0.update(n - 1, ObjView { model: r.0, ..o }), r.1, Some(n - 1))
                } else {
                    (
                        prev.0.update(
                            n - 1,
                            ObjView {
                                model: r.0,
                                counter: spec_next_counter(o.counter, o.divisor),
                                ..o
                            },
                        ),
                        r.1,
                        None,
                    )
                }
            } else {
                (
                    prev.0.update(
                        n - 1,
                        ObjView { counter: spec_next_counter(o.counter, o.divisor), ..o },
                    ),
                    prev.1,
                    None,
                )
            }
        }
    }
}

/// What one frame does to a whole group.
pub open spec fn spec_frame(ms: Seq<ObjView>, a: Seq<u8>, tick: int) -> (
    Seq<ObjView>,
    Seq<u8>,
    Option<int>,
) {
    spec_frame_upto(ms, a, tick, ms.len() as int)
}

/// Once a model has reported an init error, offering `init` to more models
/// changes nothing.
proof fn lemma_group_init_stable(ms: Seq<ObjView>, i: int, n: int)
    requires
        0 <= i <= n,
        spec_group_init_upto(ms, i).1 is Some,
    ensures
        spec_group_init_upto(ms, n) == spec_group_init_upto(ms, i),
    decreases n,
{
    if n > i {
        lemma_group_init_stable(ms, i, n - 1);
    }
}

/// Once a model has stopped a frame with an error, reaching more objects
/// changes nothing.
proof fn lemma_frame_stable(ms: Seq<ObjView>, a: Seq<u8>, tick: int, i: int, n: int)
    requires
        0 <= i <= n,
        spec_frame_upto(ms, a, tick, i).2 is Some,
    ensures
        spec_frame_upto(ms, a, tick, n) == spec_frame_upto(ms, a, tick, i),
    decreases n,
{
    if n > i {
        lemma_frame_stable(ms, a, tick, i, n - 1);
    }
}

/// A frame over a single due (counter zero) connection whose regions fit
/// the arena moves the source region onto the destination region and
/// raises no error.
pub proof fn lemma_connection_copies(ms: Seq<ObjView>, a: Seq<u8>, tick: int, c: Connection)
    requires
        ms.len() == 1,
        ms[0].counter == 0,
        ms[0].model == ModelView::Connection(c),
        crate::connection::spec_conn_in_bounds(c, a.len() as int),
    ensures
        spec_frame(ms, a, tick).1 == crate::modellib::spec_copy(
            a,
            c.src as int,
            c.dst as int,
            c.size as int,
        ),
        spec_frame(ms, a, tick).2 is None,
{
    assert(spec_frame_upto(ms, a, tick, 0) == (ms, a, Option::<int>::None));
    assert(spec_conn_step_status(c, a) == RuntimeStatus::OK);
}

/// Over one frame, every reached object's counter advances by the schedule
/// rule, its divisor and offset stay fixed, and an object whose counter was
/// not zero keeps its model untouched: the engine realizes the firing
/// discipline that `spec_fires` describes.
pub proof fn lemma_frame_schedule(ms: Seq<ObjView>, a: Seq<u8>, tick: int, n: int)
    requires
        0 <= n <= ms.len(),
    ensures
        ({
            let r = spec_frame_upto(ms, a, tick, n);
            &&& r.0.len() == ms.len()
            &&& forall|i: int| n <= i < ms.len() ==> r.0[i] == ms[i]
            &&& r.2 is None ==> forall|i: int|
                0 <= i < n ==> (#[trigger] r.0[i]).counter == spec_next_counter(
                    ms[i].counter,
                    ms[i].divisor,
                ) && r.0[i].divisor == ms[i].divisor && r.0[i].offset == ms[i].offset && (
                ms[i].counter != 0 ==> r.0[i].model == ms[i].model)
        }),
    decreases n,
{
    if n > 0 {
        lemma_frame_schedule(ms, a, tick, n - 1);
    }
}

impl ThreadState {
    /// Offer `init` to every model in order, stopping at the first ERROR
    /// and reporting its index.
    pub fn run_init(&mut self, intf: &mut RSISInterface) -> (r: Option<u32>)
        requires
            spec_group_wf(old(self)@),
        ensures
            ({
                let (ms, err) = spec_group_init(old(self)@.models);
                &&& final(self)@.models == ms
                &&& (match r {
                    Some(i) => err == Some(i as int),
                    None => err is None,
                })
            }),
            final(self)@.frequency == old(self)@.frequency,
            final(self)@.frames == old(self)@.frames,
            *final(intf) == *old(intf),
            spec_group_wf(final(self)@),
    {
        let n = self.models.len();
        let mut i: usize = 0;
        let mut err: Option<u32> = None;
        while i < n && err.is_none()
            invariant
                i <= n,
                n == old(self)@.models.len(),
                self.models@.len() == n,
                self.frequency == old(self).frequency,
                self.frames == old(self).frames,
                *intf == *old(intf),
                spec_group_wf(old(self)@),
                spec_group_wf(self@),
                ({
                    let (ms, e) = spec_group_init_upto(old(self)@.models, i as int);
                    &&& self@.models == ms
                    &&& (match err {
                        Some(x) => e == Some(x as int),
                        None => e is None,
                    })
                }),
            decreases n - i,
        {
            let ghost pre = self@.models;
            let obj = &mut self.models[i];
            let st = obj.model.init(intf);
            proof {
                assert(self@.models =~= pre.update(
                    i as int,
                    ObjView { model: spec_model_init(pre[i as int].model).0, ..pre[i as int] },
                ));
            }
            if st == RuntimeStatus::ERROR {
                err = Some(i as u32);
            }
            i = i + 1;
        }
        proof {
            if err is Some {
                lemma_group_init_stable(old(self)@.models, i as int, n as int);
            }
        }
        err
    }

    /// Execute one frame: step each model whose counter is zero, advance
    /// every reached counter, and stop at the first stepping model that
    /// reports ERROR. The frame counter advances whether or not the frame
    /// completed.
    pub fn run_frame(&mut self, intf: &mut RSISInterface) -> (r: Option<u32>)
        requires
            spec_group_wf(old(self)@),
        ensures
            ({
                let (ms, a, err) = spec_frame(
                    old(self)@.models,
                    old(intf).arena@,
                    old(intf).time.time as int,
                );
                &&& final(self)@.models == ms
                &&& final(intf).arena@ == a
                &&& (match r {
                    Some(i) => err == Some(i as int),
                    None => err is None,
                })
            }),
            final(self)@.frequency == old(self)@.frequency,
            final(self)@.frames == spec_inc_frames(old(self)@.frames),
            final(intf).channels == old(intf).channels,
            final(intf).time == old(intf).time,
            spec_group_wf(final(self)@),
    {
        let n = self.models.len();
        let mut i: usize = 0;
        let mut err: Option<u32> = None;
        while i < n && err.is_none()
            invariant
                i <= n,
                n == old(self)@.models.len(),
                self.models@.len() == n,
                self.frequency == old(self).frequency,
                self.frames == old(self).frames,
                intf.channels == old(intf).channels,
                intf.time == old(intf).time,
                spec_group_wf(old(self)@),
                spec_group_wf(self@),
                ({
                    let (ms, a, e) = spec_frame_upto(
                        old(self)@.models,
                        old(intf).arena@,
                        old(intf).time.time as int,
                        i as int,
                    );
                    &&& self@.models == ms
                    &&& intf.arena@ == a
                    &&& (match err {
                        Some(x) => e == Some(x as int),
                        None => e is None,
                    })
                }),
            decreases n - i,
        {
            let ghost pre = self@.models;
            let ghost prearena = intf.arena@;
            let obj = &mut self.models[i];
            if obj.counter == 0 {
                let st = obj.model.step(intf);
                if st == RuntimeStatus::ERROR {
                    proof {
                        assert(self@.models =~= pre.update(
                            i as int,
                            ObjView {
                                model: spec_model_step(
                                    pre[i as int].model,
                                    prearena,
                                    old(intf).time.time as int,
                                ).0,
                                ..pre[i as int]
                            },
                        ));
                    }
                    err = Some(i as u32);
                } else {
                    obj.counter = obj.counter + 1;
                    if obj.counter == obj.divisor {
                        obj.counter = 0;
                    }
                    proof {
                        assert(self@.models =~= pre.update(
                            i as int,
                            ObjView {
                                model: spec_model_step(
                                    pre[i as int].model,
                                    prearena,
                                    old(intf).time.time as int,
                                ).0,
                                counter: spec_next_counter(
                                    pre[i as int].counter,
                                    pre[i as int].divisor,
                                ),
                                ..pre[i as int]
                            },
                        ));
                    }
                }
            } else {
                obj.counter = obj.counter + 1;
                if obj.counter == obj.divisor {
                    obj.counter = 0;
                }
                proof {
                    assert(self@.models =~= pre.update(
                        i as int,
                        ObjView {
                            counter: spec_next_counter(pre[i as int].counter, pre[i as int].divisor),
                            ..pre[i as int]
                        },
                    ));
                }
            }
            i = i + 1;
        }
        proof {
            if err is Some {
                lemma_frame_stable(
                    old(self)@.models,
                    old(intf).arena@,
                    old(intf).time.time as int,
                    i as int,
                    n as int,
                );
            }
        }
        if self.frames < u64::MAX {
            self.frames = self.frames + 1;
        }
        err
    }
}

impl ThreadState {
    /// Tell every model of the group to pause; the built-in models treat
    /// pause as a no-op, so the group is unchanged.
    pub fn run_pause(&mut self)
        ensures
            final(self)@ == old(self)@,
    {
        let n = self.models.len();
        let mut i: usize = 0;
        while i < n
            invariant
                i <= n,
                self.models@.len() == n,
                self@ == old(self)@,
            decreases n - i,
        {
            let ghost pre = *self;
            let obj = &mut self.models[i];
            obj.model.pause();
            proof {
                assert(self.models@ =~= pre.models@);
                assert(self@ =~= pre@);
            }
            i = i + 1;
        }
    }
}

/// The response a group reports for an `INIT` command.
pub fn init_result(err: Option<u32>) -> (r: ThreadResult)
    ensures
        r == (match err {
            Some(i) => ThreadResult::ERR(ThreadCommand::INIT, i),
            None => ThreadResult::OK(ThreadCommand::INIT),
        }),
{
    match err {
        Some(i) => ThreadResult::ERR(ThreadCommand::INIT, i),
        None => ThreadResult::OK(ThreadCommand::INIT),
    }
}

/// The response a group reports for one frame of an `EXECUTE` command.
pub fn frame_result(steps: u64, err: Option<u32>) -> (r: ThreadResult)
    ensures
        r == (match err {
            Some(i) => ThreadResult::ERR(ThreadCommand::EXECUTE(steps), i),
            None => ThreadResult::OK(ThreadCommand::EXECUTE(steps)),
        }),
{
    match err {
        Some(i) => ThreadResult::ERR(ThreadCommand::EXECUTE(steps), i),
        None => ThreadResult::OK(ThreadCommand::EXECUTE(steps)),
    }
}

/// How the supervisor state reacts to one group response: an error report
/// from any group makes the run ERRORED, a group that has shut down moves
/// an ending (or running) schedule toward ENDED, and a plain OK leaves the
/// state to the aggregation around it.
pub open spec fn spec_supervisor_on_result(s: SchedulerState, r: ThreadResult) -> SchedulerState {
    match r {
        ThreadResult::OK(_) => s,
        ThreadResult::ERR(_, _) => SchedulerState::ERRORED,
        ThreadResult::END => if s == SchedulerState::ENDING || s == SchedulerState::RUNNING {
            SchedulerState::ENDED
        } else {
            s
        },
    }
}

/// Apply one group response to the supervisor state.
pub fn supervisor_on_result(s: SchedulerState, r: ThreadResult) -> (t: SchedulerState)
    ensures
        t == spec_supervisor_on_result(s, r),
        spec_state_edge(s, t),
{
    match r {
        ThreadResult::OK(_) => s,
        ThreadResult::ERR(_, _) => SchedulerState::ERRORED,
        ThreadResult::END => {
            if s == SchedulerState::ENDING || s == SchedulerState::RUNNING {
                SchedulerState::ENDED
            } else {
                s
            }
        },
    }
}

/// The views of a list of rate groups.
pub open spec fn threads_view(ts: Seq<ThreadState>) -> Seq<ThreadView> {
    ts.map_values(|t: ThreadState| t@)
}

/// `rmp_serde::decode::Error` is the decode failure the msgpack reader
/// reports; the configuration path only tells success from failure.
#[verifier::external_type_specification]
#[verifier::external_body]
pub struct ExRmpDecodeError(rmp_serde::decode::Error);

/// The msgpack string (as its UTF-8 bytes) that `b` encodes, when it does
/// encode one; what `rmp_serde::decode::from_read` yields on `b`.
pub uninterp spec fn spec_msgpack_str(b: Seq<u8>) -> Option<Seq<u8>>;

/// Relies on rmp_serde::decode::from_read: reading a `String` from the
/// bytes yields the msgpack-encoded string, a pure function of the bytes.
#[verifier::external_body]
fn decode_msgpack_str(bytes: &[u8]) -> (r: Result<Vec<u8>, rmp_serde::decode::Error>)
    ensures
        (r is Ok) == (spec_msgpack_str(bytes@) is Some),
        r matches Ok(s) ==> spec_msgpack_str(bytes@) == Some(s@),
{
    match rmp_serde::decode::from_read::<&[u8], String>(bytes) {
        Ok(s) => Ok(s.into_bytes()),
        Err(e) => Err(e),
    }
}

/// The configuration key that enables soft-real-time pacing: the ASCII
/// bytes of the word `srt`.
pub open spec fn spec_key_srt() -> Seq<u8> {
    seq![115u8, 114u8, 116u8]
}

/// Executable form of the soft-real-time key.
pub fn key_srt() -> (r: Vec<u8>)
    ensures
        r@ == spec_key_srt(),
{
    let mut v: Vec<u8> = Vec::new();
    v.push(115);
    v.push(114);
    v.push(116);
    proof {
        assert(v@ =~= spec_key_srt());
    }
    v
}

/// Indexing the views of a group list is viewing the indexed group.
proof fn lemma_threads_view_index(ts: Seq<ThreadState>, i: int)
    requires
        0 <= i < ts.len(),
    ensures
        threads_view(ts)[i] == ts[i]@,
{
}

/// What `INIT` does to every group: each group initializes its own models
/// independently; the flag reports whether any group raised an error.
pub open spec fn spec_groups_init(ts: Seq<ThreadView>) -> (Seq<ThreadView>, bool) {
    (
        Seq::new(
            ts.len(),
            |g: int| ThreadView { models: spec_group_init(ts[g].models).0, ..ts[g] },
        ),
        exists|g: int| 0 <= g < ts.len() && spec_group_init(#[trigger] ts[g].models).1 is Some,
    )
}

/// The groups and arena after the first `n` groups have run one frame of
/// the current tick, in group order; the flag reports whether any frame
/// raised an error.
pub open spec fn spec_groups_frame_upto(ts: Seq<ThreadView>, a: Seq<u8>, tick: int, n: int) -> (
    Seq<ThreadView>,
    Seq<u8>,
    bool,
)
    decreases n,
{
    if n <= 0 {
        (ts, a, false)
    } else {
        let prev = spec_groups_frame_upto(ts, a, tick, n - 1);
        let g = prev.0[n - 1];
        let fr = spec_frame(g.models, prev.1, tick);
        (
            prev.0.update(
                n - 1,
                ThreadView { models: fr.0, frames: spec_inc_frames(g.frames), ..g },
            ),
            fr.1,
            prev.2 || fr.2 is Some,
        )
    }
}

/// What one tick does to every group: each group runs one frame, in group
/// order, over the shared arena.
pub open spec fn spec_groups_frame(ts: Seq<ThreadView>, a: Seq<u8>, tick: int) -> (
    Seq<ThreadView>,
    Seq<u8>,
    bool,
) {
    spec_groups_frame_upto(ts, a, tick, ts.len() as int)
}

/// Soft-real-time scheduler: the facade the driver talks to. It owns the
/// rate groups, the shared framework interface, and the lifecycle state;
/// commands are applied by `pump`, one bounded piece of work per call, so
/// a host runtime can drive it from a thread per group or from a plain
/// loop.
pub struct NRTScheduler {
    pub threads: Vec<ThreadState>,
    pub state: SchedulerState,
    pub interface: RSISInterface,
    pub soft_real_time: bool,
    pub started: bool,
    pub exec_remaining: u64,
    pub pause_requested: bool,
}

/// A handle to a model stored in the scheduler, as handed back by
/// `add_model`: the group index and the position inside the group.
#[derive(Copy, Clone, PartialEq, Eq, Structural, Debug)]
pub struct ModelHandle {
    pub thread: usize,
    pub index: usize,
}

impl NRTScheduler {
    /// The scheduler's internal invariant: every group is well-formed, all
    /// groups have executed the same number of frames (lockstep), the
    /// shared clock is well-formed, and the command bookkeeping matches
    /// the lifecycle state.
    pub open spec fn wf(self) -> bool {
        &&& self.interface.wf()
        &&& self.threads@.len() <= i32::MAX
        &&& forall|g: int|
            0 <= g < self.threads@.len() ==> spec_group_wf(#[trigger] self.threads@[g]@)
        &&& forall|g: int|
            0 <= g < self.threads@.len() ==> #[trigger] self.threads@[g]@.frames
                == self.threads@[0]@.frames
        &&& self.started == (self.state != SchedulerState::CONFIG)
        &&& self.state != SchedulerState::RUNNING ==> self.exec_remaining == 0
            && !self.pause_requested
    }

    pub fn new() -> (r: NRTScheduler)
        ensures
            r.wf(),
            r.state == SchedulerState::CONFIG,
            r.threads@.len() == 0,
            !r.soft_real_time,
            !r.started,
            r.interface.channels@ == Map::<i64, crate::channel::ChannelPairStorage>::empty(),
            r.interface.time.time == 0 && r.interface.time.epoch == 0,
            r.interface.time.rollover == i64::MAX,
            r.interface.arena@ == Seq::<u8>::empty(),
    {
        NRTScheduler {
            threads: Vec::new(),
            state: SchedulerState::CONFIG,
            interface: RSISInterface::new(),
            soft_real_time: false,
            started: false,
            exec_remaining: 0,
            pause_requested: false,
        }
    }

    /// Drop every rate group. Allowed only while configuring.
    pub fn clear_threads(&mut self)
        requires
            old(self).wf(),
        ensures
            final(self).wf(),
            final(self).state == old(self).state,
            old(self).state == SchedulerState::CONFIG ==> final(self).threads@.len() == 0,
            old(self).state != SchedulerState::CONFIG ==> *final(self) == *old(self),
            final(self).interface == old(self).interface,
            final(self).soft_real_time == old(self).soft_real_time,
    {
        if self.state == SchedulerState::CONFIG {
            self.threads = Vec::new();
        }
    }

    /// Append one rate group running at `frequency` hertz. Allowed only
    /// while configuring; the group count is capped by the ABI's i32
    /// thread count.
    pub fn add_thread(&mut self, frequency: u64)
        requires
            old(self).wf(),
        ensures
            final(self).wf(),
            final(self).state == old(self).state,
            (old(self).state == SchedulerState::CONFIG && old(self).threads@.len() < i32::MAX)
                ==> ({
                &&& final(self).threads@.len() == old(self).threads@.len() + 1
                &&& forall|g: int|
                    0 <= g < old(self).threads@.len() ==> final(self).threads@[g] == old(self).threads@[g]
                &&& final(self).threads@[old(self).threads@.len() as int]@ == (ThreadView {
                    frequency: frequency as int,
                    models: Seq::<ObjView>::empty(),
                    frames: (if old(self).threads@.len() > 0 {
                        old(self).threads@[0]@.frames
                    } else {
                        0
                    }),
                })
            }),
            !(old(self).state == SchedulerState::CONFIG && old(self).threads@.len() < i32::MAX)
                ==> *final(self) == *old(self),
            final(self).interface == old(self).interface,
            final(self).soft_real_time == old(self).soft_real_time,
    {
        if self.state == SchedulerState::CONFIG && self.threads.len() < i32::MAX as usize {
            let frames: u64 = if self.threads.len() > 0 {
                self.threads[0].frames
            } else {
                0
            };
            let group = ThreadState { frequency, models: Vec::new(), frames };
            self.threads.push(group);
            proof {
                assert(self.threads@[old(self).threads@.len() as int]@.models =~= Seq::<
                    ObjView,
                >::empty());
            }
        }
    }

    /// Store a model in group `thread` with the given rate divisor and
    /// phase offset; its counter starts at `offset % divisor`. Returns a
    /// handle to the stored model, or None while not configuring, for a
    /// group index out of range, for a divisor below one or a negative
    /// offset, or for a full group.
    pub fn add_model(&mut self, model: Model, thread: usize, divisor: i64, offset: i64) -> (r:
        Option<ModelHandle>)
        requires
            old(self).wf(),
        ensures
            final(self).wf(),
            final(self).state == old(self).state,
            ({
                let ok = old(self).state == SchedulerState::CONFIG && thread < old(self).threads@.len() && divisor >= 1 && offset >= 0 && old(self).threads@[thread as int]@.models.len() < u32::MAX;
                if ok {
                    &&& r == Some(ModelHandle {
                        thread,
                        index: old(self).threads@[thread as int].models@.len() as usize,
                    })
                    &&& final(self).threads@.len() == old(self).threads@.len()
                    &&& forall|g: int|
                        0 <= g < old(self).threads@.len() && g != thread ==> final(self).threads@[g] == old(self).threads@[g]
                    &&& final(self).threads@[thread as int]@.models == old(self).threads@[thread as int]@.models.push(
                        ObjView {
                            model: model@,
                            divisor: divisor as int,
                            offset: offset as int,
                            counter: (offset as int) % (divisor as int),
                        },
                    )
                    &&& final(self).threads@[thread as int]@.frequency == old(self).threads@[thread as int]@.frequency
                    &&& final(self).threads@[thread as int]@.frames == old(self).threads@[thread as int]@.frames
                } else {
                    r is None && *final(self) == *old(self)
                }
            }),
            final(self).interface == old(self).interface,
    {
        if self.state != SchedulerState::CONFIG {
            return None;
        }
        if thread >= self.threads.len() {
            return None;
        }
        if divisor < 1 || offset < 0 {
            return None;
        }
        if self.threads[thread].models.len() >= u32::MAX as usize {
            return None;
        }
        let counter = offset % divisor;
        let index = self.threads[thread].models.len();
        let obj = ScheduledObject { model, divisor, offset, counter };
        let ghost pregroup = self.threads@[thread as int]@;
        let group = &mut self.threads[thread];
        group.models.push(obj);
        proof {
            let newobj = ObjView {
                model: model@,
                divisor: divisor as int,
                offset: offset as int,
                counter: (offset as int) % (divisor as int),
            };
            assert(self.threads@[thread as int]@.models =~= pregroup.models.push(newobj));
            vstd::arithmetic::div_mod::lemma_mod_bound(offset as int, divisor as int);
            assert forall|g: int| 0 <= g < self.threads@.len() implies spec_group_wf(
                #[trigger] self.threads@[g]@,
            ) by {
                if g == thread as int {
                    let ms = self.threads@[g]@.models;
                    assert(spec_group_wf(old(self).threads@[g]@));
                    assert forall|i: int| 0 <= i < ms.len() implies spec_obj_wf(
                        #[trigger] ms[i],
                    ) by {
                        if i < pregroup.models.len() {
                            assert(ms[i] == pregroup.models[i]);
                            assert(spec_obj_wf(pregroup.models[i]));
                        } else {
                            assert(ms[i] == newobj);
                        }
                    }
                } else {
                    assert(self.threads@[g] == old(self).threads@[g]);
                }
            }
            assert forall|g: int| 0 <= g < self.threads@.len() implies #[trigger] self.threads@[g]@.frames == self.threads@[0]@.frames by {
                if g != thread as int {
                    assert(self.threads@[g] == old(self).threads@[g]);
                }
                if thread != 0 {
                    assert(self.threads@[0] == old(self).threads@[0]);
                }
                assert(self.threads@[thread as int]@.frames == pregroup.frames);
            }
        }
        Some(ModelHandle { thread, index })
    }

    /// Remove the model at position `id` of group `thread`. Returns 0 on
    /// success, 1 for a group index out of range, 2 for a position out of
    /// range, and 3 while not configuring.
    pub fn remove_model(&mut self, thread: usize, id: usize) -> (r: i32)
        requires
            old(self).wf(),
        ensures
            final(self).wf(),
            final(self).state == old(self).state,
            final(self).interface == old(self).interface,
            old(self).state != SchedulerState::CONFIG ==> r == 3 && *final(self) == *old(self),
            old(self).state == SchedulerState::CONFIG && thread >= old(self).threads@.len() ==> r
                == 1 && *final(self) == *old(self),
            old(self).state == SchedulerState::CONFIG && thread < old(self).threads@.len() && id
                >= old(self).threads@[thread as int]@.models.len() ==> r == 2 && *final(self)
                == *old(self),
            (old(self).state == SchedulerState::CONFIG && thread < old(self).threads@.len() && id
                < old(self).threads@[thread as int]@.models.len()) ==> ({
                &&& r == 0
                &&& final(self).threads@.len() == old(self).threads@.len()
                &&& forall|g: int|
                    0 <= g < old(self).threads@.len() && g != thread ==> final(self).threads@[g] == old(self).threads@[g]
                &&& final(self).threads@[thread as int]@.models == old(self).threads@[thread as int]@.models.remove(id as int)
                &&& final(self).threads@[thread as int]@.frequency == old(self).threads@[thread as int]@.frequency
                &&& final(self).threads@[thread as int]@.frames == old(self).threads@[thread as int]@.frames
            }),
    {
        if self.state != SchedulerState::CONFIG {
            return 3;
        }
        if thread >= self.threads.len() {
            return 1;
        }
        if id >= self.threads[thread].models.len() {
            return 2;
        }
        let ghost pregroup = self.threads@[thread as int]@;
        let group = &mut self.threads[thread];
        group.models.remove(id);
        proof {
            assert(self.threads@[thread as int]@.models =~= pregroup.models.remove(id as int));
            assert forall|g: int| 0 <= g < self.threads@.len() implies spec_group_wf(
                #[trigger] self.threads@[g]@,
            ) by {
                if g == thread as int {
                    let ms = self.threads@[g]@.models;
                    assert(spec_group_wf(old(self).threads@[g]@));
                    assert forall|i: int| 0 <= i < ms.len() implies spec_obj_wf(
                        #[trigger] ms[i],
                    ) by {
                        if i < id {
                            assert(ms[i] == pregroup.models[i]);
                        } else {
                            assert(ms[i] == pregroup.models[i + 1]);
                        }
                        assert(spec_group_wf(pregroup));
                    }
                } else {
                    assert(self.threads@[g] == old(self).threads@[g]);
                }
            }
            assert forall|g: int| 0 <= g < self.threads@.len() implies #[trigger] self.threads@[g]@.frames == self.threads@[0]@.frames by {
                if g != thread as int {
                    assert(self.threads@[g] == old(self).threads@[g]);
                }
                if thread != 0 {
                    assert(self.threads@[0] == old(self).threads@[0]);
                }
                assert(self.threads@[thread as int]@.frames == pregroup.frames);
            }
        }
        0
    }

    /// Number of rate groups.
    pub fn get_num_threads(&self) -> (r: i32)
        requires
            self.wf(),
        ensures
            r == self.threads@.len(),
    {
        self.threads.len() as i32
    }

    /// Current lifecycle state, as the driver polls it.
    pub fn get_state(&self) -> (r: SchedulerState)
        ensures
            r == self.state,
    {
        self.state
    }

    /// Read a named field of a stored model.
    pub fn meta_get(&self, handle: ModelHandle, id: &BufferStruct) -> (r: Result<BufferStruct, u32>)
        ensures
            (handle.thread < self.threads@.len() && handle.index < self.threads@[handle.thread as int]@.models.len())
                ==> (match r {
                Ok(d) => crate::basemodel::spec_model_msg_get(
                    self.threads@[handle.thread as int]@.models[handle.index as int].model,
                    id.bytes@,
                ) == Ok::<Seq<u8>, u32>(d.bytes@),
                Err(e) => crate::basemodel::spec_model_msg_get(
                    self.threads@[handle.thread as int]@.models[handle.index as int].model,
                    id.bytes@,
                ) == Err::<Seq<u8>, u32>(e),
            }),
            !(handle.thread < self.threads@.len() && handle.index < self.threads@[handle.thread as int]@.models.len())
                ==> (r matches Err(e) && e == MSG_UNKNOWN),
    {
        if handle.thread >= self.threads.len() {
            return Err(MSG_UNKNOWN);
        }
        if handle.index >= self.threads[handle.thread].models.len() {
            return Err(MSG_UNKNOWN);
        }
        self.threads[handle.thread].models[handle.index].model.msg_get(id)
    }

    /// Write a named field of a stored model. None of the built-in models
    /// accepts writes, so this reports the model's own status.
    pub fn meta_set(&mut self, handle: ModelHandle, id: &BufferStruct, data: &BufferStruct) -> (r:
        u32)
        requires
            old(self).wf(),
        ensures
            final(self).wf(),
            threads_view(final(self).threads@) == threads_view(old(self).threads@),
            final(self).state == old(self).state,
            final(self).interface == old(self).interface,
            final(self).soft_real_time == old(self).soft_real_time,
            final(self).started == old(self).started,
            final(self).exec_remaining == old(self).exec_remaining,
            final(self).pause_requested == old(self).pause_requested,
            r == MSG_UNKNOWN,
    {
        if handle.thread >= self.threads.len() {
            return MSG_UNKNOWN;
        }
        if handle.index >= self.threads[handle.thread].models.len() {
            return MSG_UNKNOWN;
        }
        let ghost pre = *self;
        let group = &mut self.threads[handle.thread];
        let obj = &mut group.models[handle.index];
        let r = obj.model.msg_set(id, data);
        proof {
            assert(threads_view(self.threads@) =~~= threads_view(pre.threads@));
            assert forall|g: int| 0 <= g < self.threads@.len() implies #[trigger] self.threads@[g]@ == pre.threads@[g]@ by {
                assert(threads_view(self.threads@)[g] == threads_view(pre.threads@)[g]);
            }
        }
        r
    }

    /// Spawn the runtime and request initialization: the scheduler leaves
    /// CONFIG for INITIALIZING; `pump` then performs the model inits.
    pub fn init(&mut self) -> (r: i32)
        requires
            old(self).wf(),
        ensures
            final(self).wf(),
            spec_state_edge(old(self).state, final(self).state),
            r == 0,
            old(self).started ==> *final(self) == *old(self),
            !old(self).started ==> ({
                &&& final(self).started
                &&& final(self).state == SchedulerState::INITIALIZING
                &&& final(self).threads == old(self).threads
                &&& final(self).interface == old(self).interface
                &&& final(self).soft_real_time == old(self).soft_real_time
                &&& final(self).exec_remaining == 0
                &&& !final(self).pause_requested
            }),
    {
        if !self.started {
            self.started = true;
            self.state = SchedulerState::INITIALIZING;
        }
        0
    }

    /// Request `steps` frames of execution. Honored (state becomes RUNNING)
    /// only when the schedule is INITIALIZED or PAUSED; ignored in any other
    /// state; reports 2 when the runtime was never started.
    pub fn step(&mut self, steps: u64) -> (r: i32)
        requires
            old(self).wf(),
        ensures
            final(self).wf(),
            spec_state_edge(old(self).state, final(self).state),
            !old(self).started ==> r == 2 && *final(self) == *old(self),
            (old(self).started && (old(self).state == SchedulerState::INITIALIZED || old(self).state == SchedulerState::PAUSED)) ==> ({
                &&& r == 0
                &&& final(self).state == SchedulerState::RUNNING
                &&& final(self).exec_remaining == steps
                &&& !final(self).pause_requested
                &&& final(self).threads == old(self).threads
                &&& final(self).interface == old(self).interface
                &&& final(self).soft_real_time == old(self).soft_real_time
                &&& final(self).started
            }),
            (old(self).started && !(old(self).state == SchedulerState::INITIALIZED || old(self).state == SchedulerState::PAUSED)) ==> r == 0 && *final(self) == *old(self),
    {
        if !self.started {
            return 2;
        }
        if self.state == SchedulerState::INITIALIZED || self.state == SchedulerState::PAUSED {
            self.state = SchedulerState::RUNNING;
            self.exec_remaining = steps;
            self.pause_requested = false;
        }
        0
    }

    /// Request a pause. Honored at the next frame boundary while RUNNING;
    /// ignored in any other state; reports 2 when the runtime was never
    /// started.
    pub fn pause(&mut self) -> (r: i32)
        requires
            old(self).wf(),
        ensures
            final(self).wf(),
            spec_state_edge(old(self).state, final(self).state),
            !old(self).started ==> r == 2 && *final(self) == *old(self),
            (old(self).started && old(self).state == SchedulerState::RUNNING) ==> ({
                &&& r == 0
                &&& final(self).pause_requested
                &&& final(self).state == old(self).state
                &&& final(self).exec_remaining == old(self).exec_remaining
                &&& final(self).threads == old(self).threads
                &&& final(self).interface == old(self).interface
                &&& final(self).soft_real_time == old(self).soft_real_time
                &&& final(self).started
            }),
            (old(self).started && old(self).state != SchedulerState::RUNNING) ==> r == 0 && *final(self) == *old(self),
    {
        if !self.started {
            return 2;
        }
        if self.state == SchedulerState::RUNNING {
            self.pause_requested = true;
        }
        0
    }

    /// Request shutdown. Honored in any resting state after configuration
    /// (INITIALIZED, RUNNING or PAUSED): the state becomes ENDING and `pump`
    /// completes it. Ignored in any other state; reports 2 when the runtime
    /// was never started.
    pub fn end(&mut self) -> (r: i32)
        requires
            old(self).wf(),
        ensures
            final(self).wf(),
            spec_state_edge(old(self).state, final(self).state),
            !old(self).started ==> r == 2 && *final(self) == *old(self),
            (old(self).started && (old(self).state == SchedulerState::RUNNING || old(self).state
                == SchedulerState::PAUSED || old(self).state == SchedulerState::INITIALIZED))
                ==> ({
                &&& r == 0
                &&& final(self).state == SchedulerState::ENDING
                &&& final(self).exec_remaining == 0
                &&& !final(self).pause_requested
                &&& final(self).threads == old(self).threads
                &&& final(self).interface == old(self).interface
                &&& final(self).soft_real_time == old(self).soft_real_time
                &&& final(self).started
            }),
            (old(self).started && !(old(self).state == SchedulerState::RUNNING || old(self).state
                == SchedulerState::PAUSED || old(self).state == SchedulerState::INITIALIZED))
                ==> r == 0 && *final(self) == *old(self),
    {
        if !self.started {
            return 2;
        }
        if self.state == SchedulerState::RUNNING || self.state == SchedulerState::PAUSED
            || self.state == SchedulerState::INITIALIZED {
            self.state = SchedulerState::ENDING;
            self.exec_remaining = 0;
            self.pause_requested = false;
        }
        0
    }

    /// Equal group-list views mean each group's view is unchanged.
    proof fn lemma_groups_unchanged(&self, pre: Seq<ThreadState>)
        requires
            threads_view(self.threads@) == threads_view(pre),
            self.threads@.len() == pre.len(),
        ensures
            forall|h: int| 0 <= h < self.threads@.len() ==> #[trigger] self.threads@[h]@ == pre[h]@,
    {
        assert forall|h: int| 0 <= h < self.threads@.len() implies #[trigger] self.threads@[h]@
            == pre[h]@ by {
            lemma_threads_view_index(self.threads@, h);
            lemma_threads_view_index(pre, h);
        }
    }

    /// Tell every model of every group to pause. The built-in models treat
    /// pause as a no-op, so the groups are unchanged.
    fn pause_groups(&mut self)
        ensures
            threads_view(final(self).threads@) == threads_view(old(self).threads@),
            final(self).threads@.len() == old(self).threads@.len(),
            final(self).state == old(self).state,
            final(self).interface == old(self).interface,
            final(self).soft_real_time == old(self).soft_real_time,
            final(self).started == old(self).started,
            final(self).exec_remaining == old(self).exec_remaining,
            final(self).pause_requested == old(self).pause_requested,
    {
        let n = self.threads.len();
        let mut g: usize = 0;
        while g < n
            invariant
                g <= n,
                n == old(self).threads@.len(),
                self.threads@.len() == n,
                threads_view(self.threads@) == threads_view(old(self).threads@),
                self.state == old(self).state,
                self.interface == old(self).interface,
                self.soft_real_time == old(self).soft_real_time,
                self.started == old(self).started,
                self.exec_remaining == old(self).exec_remaining,
                self.pause_requested == old(self).pause_requested,
            decreases n - g,
        {
            let ghost pre = threads_view(self.threads@);
            let group = &mut self.threads[g];
            group.run_pause();
            proof {
                assert(threads_view(self.threads@) =~= pre);
            }
            g = g + 1;
        }
    }

    /// Perform one bounded piece of pending work: run the model inits after
    /// an `init` request, execute one frame of a running schedule (honoring
    /// a pending pause at the frame boundary), or complete a shutdown. A
    /// host runtime calls this in a loop; each call leaves the scheduler in
    /// a consistent state, so a driver can interleave commands freely.
    pub fn pump(&mut self)
        requires
            old(self).wf(),
        ensures
            final(self).wf(),
            spec_state_edge(old(self).state, final(self).state),
            final(self).soft_real_time == old(self).soft_real_time,
            final(self).started == old(self).started,
            final(self).threads@.len() == old(self).threads@.len(),
            (old(self).state == SchedulerState::CONFIG || old(self).state
                == SchedulerState::INITIALIZED || old(self).state == SchedulerState::PAUSED || old(self).state == SchedulerState::ENDED || old(self).state == SchedulerState::ERRORED)
                ==> *final(self) == *old(self),
            old(self).state == SchedulerState::INITIALIZING ==> ({
                let r = spec_groups_init(threads_view(old(self).threads@));
                &&& threads_view(final(self).threads@) == r.0
                &&& final(self).state == (if r.1 {
                    SchedulerState::ERRORED
                } else {
                    SchedulerState::INITIALIZED
                })
                &&& final(self).interface == old(self).interface
            }),
            (old(self).state == SchedulerState::RUNNING && old(self).pause_requested) ==> ({
                &&& final(self).state == SchedulerState::PAUSED
                &&& threads_view(final(self).threads@) == threads_view(old(self).threads@)
                &&& final(self).interface == old(self).interface
                &&& final(self).exec_remaining == 0
            }),
            (old(self).state == SchedulerState::RUNNING && !old(self).pause_requested && old(self).exec_remaining == 0) ==> ({
                &&& final(self).state == SchedulerState::PAUSED
                &&& threads_view(final(self).threads@) == threads_view(old(self).threads@)
                &&& final(self).interface == old(self).interface
            }),
            (old(self).state == SchedulerState::RUNNING && !old(self).pause_requested && old(self).exec_remaining > 0 && old(self).interface.time.epoch == i64::MAX) ==> ({
                &&& final(self).state == SchedulerState::ERRORED
                &&& threads_view(final(self).threads@) == threads_view(old(self).threads@)
                &&& final(self).interface == old(self).interface
            }),
            (old(self).state == SchedulerState::RUNNING && !old(self).pause_requested && old(self).exec_remaining > 0 && old(self).interface.time.epoch < i64::MAX) ==> ({
                let t0 = old(self).interface.time;
                let tick = spec_inc_time(t0.time as int, 1, t0.rollover as int);
                let r = spec_groups_frame(
                    threads_view(old(self).threads@),
                    old(self).interface.arena@,
                    tick,
                );
                &&& threads_view(final(self).threads@) == r.0
                &&& final(self).interface.arena@ == r.1
                &&& final(self).interface.time.time == tick
                &&& final(self).interface.time.epoch == spec_inc_epoch(
                    t0.epoch as int,
                    t0.time as int,
                    1,
                    t0.rollover as int,
                )
                &&& final(self).interface.time.rollover == t0.rollover
                &&& final(self).interface.channels == old(self).interface.channels
                &&& final(self).state == (if r.2 {
                    SchedulerState::ERRORED
                } else if old(self).exec_remaining == 1 {
                    SchedulerState::PAUSED
                } else {
                    SchedulerState::RUNNING
                })
                &&& final(self).exec_remaining == (if r.2 {
                    0
                } else {
                    old(self).exec_remaining - 1
                })
                &&& final(self).pause_requested == old(self).pause_requested
            }),
            old(self).state == SchedulerState::ENDING ==> ({
                &&& final(self).state == SchedulerState::ENDED
                &&& final(self).threads == old(self).threads
                &&& final(self).interface == old(self).interface
            }),
    {
        if self.state == SchedulerState::INITIALIZING {
            let n = self.threads.len();
            let mut g: usize = 0;
            let mut st = self.state;
            while g < n
                invariant
                    g <= n,
                    n == old(self).threads@.len(),
                    self.threads@.len() == n,
                    self.state == old(self).state,
                    self.state == SchedulerState::INITIALIZING,
                    self.started == old(self).started,
                    self.exec_remaining == old(self).exec_remaining,
                    self.pause_requested == old(self).pause_requested,
                    self.soft_real_time == old(self).soft_real_time,
                    self.interface == old(self).interface,
                    forall|h: int|
                        0 <= h < g ==> #[trigger] self.threads@[h]@ == (ThreadView {
                            models: spec_group_init(old(self).threads@[h]@.models).0,
                            ..old(self).threads@[h]@
                        }),
                    forall|h: int| g <= h < n ==> #[trigger] self.threads@[h] == old(self).threads@[h],
                    forall|h: int| 0 <= h < n ==> spec_group_wf(#[trigger] self.threads@[h]@),
                    forall|h: int|
                        0 <= h < n ==> #[trigger] self.threads@[h]@.frames == old(self).threads@[h]@.frames,
                    st == (if exists|h: int|
                        0 <= h < g && spec_group_init(
                            #[trigger] old(self).threads@[h]@.models,
                        ).1 is Some {
                        SchedulerState::ERRORED
                    } else {
                        SchedulerState::INITIALIZING
                    }),
                decreases n - g,
            {
                let ghost preview = self.threads@[g as int]@;
                let group = &mut self.threads[g];
                let res = group.run_init(&mut self.interface);
                let tr = init_result(res);
                st = supervisor_on_result(st, tr);
                proof {
                    assert(self.threads@[g as int]@ =~= ThreadView {
                        models: spec_group_init(preview.models).0,
                        ..preview
                    });
                }
                g = g + 1;
            }
            if st == SchedulerState::INITIALIZING {
                self.state = SchedulerState::INITIALIZED;
            } else {
                self.state = SchedulerState::ERRORED;
            }
            proof {
                let ts0 = threads_view(old(self).threads@);
                assert forall|h: int| 0 <= h < n implies #[trigger] ts0[h] == old(self).threads@[h]@ by {
                    lemma_threads_view_index(old(self).threads@, h);
                }
                assert forall|h: int| 0 <= h < n implies #[trigger] threads_view(self.threads@)[h]
                    == spec_groups_init(ts0).0[h] by {
                    lemma_threads_view_index(self.threads@, h);
                    assert(self.threads@[h]@ =~= ThreadView {
                        models: spec_group_init(ts0[h].models).0,
                        ..ts0[h]
                    });
                }
                assert(threads_view(self.threads@) =~= spec_groups_init(ts0).0);
                if exists|h: int|
                    0 <= h < n && spec_group_init(#[trigger] old(self).threads@[h]@.models).1 is Some {
                    let h = choose|h: int|
                        0 <= h < n && spec_group_init(
                            #[trigger] old(self).threads@[h]@.models,
                        ).1 is Some;
                    assert(spec_group_init(ts0[h].models).1 is Some);
                    assert(spec_groups_init(ts0).1);
                } else {
                    if spec_groups_init(ts0).1 {
                        let h = choose|h: int|
                            0 <= h < ts0.len() && spec_group_init(#[trigger] ts0[h].models).1 is Some;
                        assert(spec_group_init(old(self).threads@[h]@.models).1 is Some);
                    }
                }
            }
        } else if self.state == SchedulerState::RUNNING {
            if self.pause_requested {
                self.pause_groups();
                proof {
                    self.lemma_groups_unchanged(old(self).threads@);
                }
                self.pause_requested = false;
                self.exec_remaining = 0;
                self.state = SchedulerState::PAUSED;
            } else if self.exec_remaining == 0 {
                self.pause_groups();
                proof {
                    self.lemma_groups_unchanged(old(self).threads@);
                }
                self.state = SchedulerState::PAUSED;
            } else if self.interface.time.epoch == i64::MAX {
                self.state = SchedulerState::ERRORED;
                self.exec_remaining = 0;
                self.pause_requested = false;
            } else {
                self.interface.time.increment(1);
                let ghost tick = self.interface.time.time as int;
                let ghost newtime = self.interface.time;
                let ghost prearena = self.interface.arena@;
                let n = self.threads.len();
                let steps = self.exec_remaining;
                let mut g: usize = 0;
                let mut st = self.state;
                while g < n
                    invariant
                        g <= n,
                        n == old(self).threads@.len(),
                        self.threads@.len() == n,
                        self.state == old(self).state,
                        self.state == SchedulerState::RUNNING,
                        self.started == old(self).started,
                        self.exec_remaining == old(self).exec_remaining,
                        self.pause_requested == old(self).pause_requested,
                        self.soft_real_time == old(self).soft_real_time,
                        self.interface.channels == old(self).interface.channels,
                        self.interface.time == newtime,
                        newtime.time as int == tick,
                        ({
                            let r = spec_groups_frame_upto(
                                threads_view(old(self).threads@),
                                prearena,
                                tick,
                                g as int,
                            );
                            &&& threads_view(self.threads@) == r.0
                            &&& self.interface.arena@ == r.1
                            &&& st == (if r.2 {
                                SchedulerState::ERRORED
                            } else {
                                SchedulerState::RUNNING
                            })
                        }),
                        forall|h: int| 0 <= h < n ==> spec_group_wf(#[trigger] self.threads@[h]@),
                        forall|h: int|
                            0 <= h < g ==> #[trigger] self.threads@[h]@.frames == spec_inc_frames(
                                old(self).threads@[h]@.frames,
                            ),
                        forall|h: int|
                            g <= h < n ==> #[trigger] self.threads@[h]@.frames == old(self).threads@[h]@.frames,
                    decreases n - g,
                {
                    let ghost prethreads = self.threads@;
                    proof {
                        lemma_threads_view_index(self.threads@, g as int);
                        let rpre = spec_groups_frame_upto(
                            threads_view(old(self).threads@),
                            prearena,
                            tick,
                            g as int,
                        );
                        assert(self.interface.arena@ == rpre.1);
                        assert(self.interface.time.time as int == tick);
                        assert(prethreads[g as int]@ == rpre.0[g as int]);
                    }
                    let group = &mut self.threads[g];
                    let res = group.run_frame(&mut self.interface);
                    let tr = frame_result(steps, res);
                    st = supervisor_on_result(st, tr);
                    proof {
                        let gi = g as int;
                        let ts0 = threads_view(old(self).threads@);
                        let rpre = spec_groups_frame_upto(ts0, prearena, tick, gi);
                        let rpost = spec_groups_frame_upto(ts0, prearena, tick, gi + 1);
                        let gv = rpre.0[gi];
                        let fr = spec_frame(gv.models, rpre.1, tick);
                        assert(prethreads[gi]@ == gv) by {
                            lemma_threads_view_index(prethreads, gi);
                        }
                        lemma_threads_view_index(self.threads@, gi);
                        assert(self.threads@[gi]@.models == fr.0);
                        assert(self.threads@[gi]@ =~= rpost.0[gi]);
                        assert forall|h: int| 0 <= h < n implies #[trigger] threads_view(
                            self.threads@,
                        )[h] == rpost.0[h] by {
                            lemma_threads_view_index(self.threads@, h);
                            if h != gi {
                                assert(self.threads@[h] == prethreads[h]);
                                lemma_threads_view_index(prethreads, h);
                            }
                        }
                        assert(threads_view(self.threads@) =~= rpost.0);
                        assert(self.interface.arena@ == rpost.1);
                    }
                    g = g + 1;
                }
                self.exec_remaining = self.exec_remaining - 1;
                if st != SchedulerState::RUNNING {
                    self.state = SchedulerState::ERRORED;
                    self.exec_remaining = 0;
                    self.pause_requested = false;
                } else if self.exec_remaining == 0 {
                    let ghost prepause = self.threads@;
                    self.pause_groups();
                    proof {
                        self.lemma_groups_unchanged(prepause);
                    }
                    self.state = SchedulerState::PAUSED;
                }
            }
        } else if self.state == SchedulerState::ENDING {
            self.state = SchedulerState::ENDED;
        }
    }

    /// Wrap a connection over the arena and store it like any model. Returns
    /// 1 (bad argument) for an empty region, 0 on success, and 2 when the
    /// model cannot be stored (wrong state, group index out of range, bad
    /// divisor or offset, or a full group).
    pub fn add_connection(
        &mut self,
        src: usize,
        dst: usize,
        size: usize,
        thread: usize,
        divisor: i64,
        offset: i64,
    ) -> (r: u32)
        requires
            old(self).wf(),
        ensures
            final(self).wf(),
            final(self).state == old(self).state,
            final(self).interface == old(self).interface,
            size == 0 ==> r == 1 && *final(self) == *old(self),
            ({
                let ok = old(self).state == SchedulerState::CONFIG && thread < old(self).threads@.len() && divisor >= 1 && offset >= 0 && old(self).threads@[thread as int]@.models.len() < u32::MAX;
                &&& (size != 0 && ok) ==> ({
                    &&& r == 0
                    &&& final(self).threads@.len() == old(self).threads@.len()
                    &&& forall|g: int|
                        0 <= g < old(self).threads@.len() && g != thread ==> final(self).threads@[g] == old(self).threads@[g]
                    &&& final(self).threads@[thread as int]@.models == old(self).threads@[thread as int]@.models.push(
                        ObjView {
                            model: ModelView::Connection(Connection { src, dst, size }),
                            divisor: divisor as int,
                            offset: offset as int,
                            counter: (offset as int) % (divisor as int),
                        },
                    )
                })
                &&& (size != 0 && !ok) ==> r == 2 && *final(self) == *old(self)
            }),
    {
        if size == 0 {
            return 1;
        }
        let conn = Connection { src, dst, size };
        match self.add_model(Model::Connection(conn), thread, divisor, offset) {
            Some(_) => 0,
            None => 2,
        }
    }

    /// Apply one configuration item, both key and value opaque byte blobs;
    /// the key is a msgpack-encoded string. The one recognized key, `srt`,
    /// enables soft-real-time pacing. A key that is unknown or does not
    /// decode is a bad argument and reports Some(1); success reports None.
    pub fn config(&mut self, key: &[u8], _value: &[u8]) -> (r: Option<i32>)
        requires
            old(self).wf(),
        ensures
            final(self).wf(),
            final(self).state == old(self).state,
            final(self).threads == old(self).threads,
            final(self).interface == old(self).interface,
            final(self).started == old(self).started,
            final(self).exec_remaining == old(self).exec_remaining,
            final(self).pause_requested == old(self).pause_requested,
            ({
                match spec_msgpack_str(key@) {
                    None => r == Some(1i32) && final(self).soft_real_time == old(self).soft_real_time,
                    Some(s) => if s == spec_key_srt() {
                        r is None && final(self).soft_real_time
                    } else {
                        r == Some(1i32) && final(self).soft_real_time == old(self).soft_real_time
                    },
                }
            }),
    {
        match decode_msgpack_str(key) {
            Err(_) => Some(1),
            Ok(s) => {
                let tag = key_srt();
                if bytes_eq(s.as_slice(), tag.as_slice()) {
                    self.soft_real_time = true;
                    None
                } else {
                    Some(1)
                }
            },
        }
    }

    /// Lockstep law: in every reachable scheduler state, any two rate
    /// groups have executed exactly the same number of frames — no group
    /// starts a frame before every group has finished the previous one.
    pub proof fn lemma_lockstep(&self, g: int, h: int)
        requires
            self.wf(),
            0 <= g < self.threads@.len(),
            0 <= h < self.threads@.len(),
        ensures
            self.threads@[g]@.frames == self.threads@[h]@.frames,
    {
    }

    /// Deposit the outcome of the host's foreign call for the external
    /// model stored at `(thread, index)`: the action the schedule asked for
    /// was performed outside, and this hands the resulting event back.
    /// Returns false (and changes nothing) when no external model is stored
    /// there.
    pub fn set_external_status(&mut self, thread: usize, index: usize, status: RuntimeStatus) -> (r:
        bool)
        requires
            old(self).wf(),
        ensures
            final(self).wf(),
            final(self).state == old(self).state,
            final(self).interface == old(self).interface,
            final(self).soft_real_time == old(self).soft_real_time,
            final(self).started == old(self).started,
            final(self).exec_remaining == old(self).exec_remaining,
            final(self).pause_requested == old(self).pause_requested,
            ({
                let ok = thread < old(self).threads@.len() && index < old(self).threads@[thread as int]@.models.len() && old(self).threads@[thread as int]@.models[index as int].model matches ModelView::External(_);
                if ok {
                    &&& r
                    &&& final(self).threads@.len() == old(self).threads@.len()
                    &&& forall|g: int|
                        0 <= g < old(self).threads@.len() && g != thread ==> final(self).threads@[g] == old(self).threads@[g]
                    &&& final(self).threads@[thread as int]@ == (ThreadView {
                        models: old(self).threads@[thread as int]@.models.update(
                            index as int,
                            ObjView {
                                model: ModelView::External(
                                    ExternalModel {
                                        slot: old(self).threads@[thread as int]@.models[index as int].model->External_0.slot,
                                        status,
                                    },
                                ),
                                ..old(self).threads@[thread as int]@.models[index as int]
                            },
                        ),
                        ..old(self).threads@[thread as int]@
                    })
                } else {
                    !r && *final(self) == *old(self)
                }
            }),
    {
        if thread >= self.threads.len() {
            return false;
        }
        if index >= self.threads[thread].models.len() {
            return false;
        }
        let is_external = match &self.threads[thread].models[index].model {
            Model::External(_) => true,
            _ => false,
        };
        if !is_external {
            return false;
        }
        let ghost pregroup = self.threads@[thread as int]@;
        let group = &mut self.threads[thread];
        let obj = &mut group.models[index];
        match &mut obj.model {
            Model::External(e) => {
                e.set_status(status);
                proof {
                    assert(self.threads@[thread as int]@ =~= ThreadView {
                        models: pregroup.models.update(
                            index as int,
                            ObjView {
                                model: ModelView::External(
                                    ExternalModel {
                                        slot: pregroup.models[index as int].model->External_0.slot,
                                        status,
                                    },
                                ),
                                ..pregroup.models[index as int]
                            },
                        ),
                        ..pregroup
                    });
                    assert forall|g: int| 0 <= g < self.threads@.len() implies spec_group_wf(
                        #[trigger] self.threads@[g]@,
                    ) by {
                        if g == thread as int {
                            let ms = self.threads@[g]@.models;
                            assert(spec_group_wf(pregroup));
                            assert forall|i: int| 0 <= i < ms.len() implies spec_obj_wf(
                                #[trigger] ms[i],
                            ) by {
                                if i != index {
                                    assert(ms[i] == pregroup.models[i]);
                                } else {
                                    assert(ms[i].counter == pregroup.models[i].counter);
                                    assert(ms[i].divisor == pregroup.models[i].divisor);
                                    assert(ms[i].offset == pregroup.models[i].offset);
                                }
                            }
                        } else {
                            assert(self.threads@[g] == old(self).threads@[g]);
                        }
                    }
                    assert forall|g: int| 0 <= g < self.threads@.len() implies #[trigger] self.threads@[g]@.frames == self.threads@[0]@.frames by {
                        if g != thread as int {
                            assert(self.threads@[g] == old(self).threads@[g]);
                        }
                        if thread != 0 {
                            assert(self.threads@[0] == old(self).threads@[0]);
                        }
                        assert(self.threads@[thread as int]@.frames == pregroup.frames);
                    }
                }
                true
            },
            _ => {
                proof {
                    assert(false);
                }
                false
            },
        }
    }

    /// Borrow a stored model, e.g. to read a probe's record.
    pub fn get_model(&self, thread: usize, index: usize) -> (r: Option<&Model>)
        ensures
            (thread < self.threads@.len() && index < self.threads@[thread as int].models@.len())
                ==> (r matches Some(m) && *m == self.threads@[thread as int].models@[index as int].model),
            !(thread < self.threads@.len() && index < self.threads@[thread as int].models@.len())
                ==> r is None,
    {
        if thread >= self.threads.len() {
            return None;
        }
        if index >= self.threads[thread].models.len() {
            return None;
        }
        Some(&self.threads[thread].models[index].model)
    }
}

} // verus!

