use vstd::prelude::*;
use crate::bufferlog::{bufferlog_app, BufferLogView, spec_log_init, spec_log_step, spec_id_index};
use crate::bufferread::{bufferread_app, BufferReadView, spec_read_init, spec_read_step};
use crate::channel::RSISInterface;
use crate::connection::{Connection, spec_conn_step_arena, spec_conn_step_status};
use crate::external::ExternalModel;
use crate::modellib::{BufferStruct, ConfigStatus, RuntimeStatus, MSG_UNKNOWN};
use crate::probe::{ProbeModel, ProbeView, spec_probe_step, spec_id_count, spec_id_out};

verus! {

/// A schedulable model: the capability set every entry of a rate group
/// implements (lifecycle, stepping, and the named-field message surface).
pub enum Model {
    Connection(Connection),
    BufferLog(bufferlog_app),
    BufferRead(bufferread_app),
    Probe(ProbeModel),
    External(ExternalModel),
}

/// Spec-level state of a model.
#[verifier::ext_equal]
pub enum ModelView {
    Connection(Connection),
    BufferLog(BufferLogView),
    BufferRead(BufferReadView),
    Probe(ProbeView),
    External(ExternalModel),
}

impl View for Model {
    type V = ModelView;

    open spec fn view(&self) -> ModelView {
        match self {
            Model::Connection(c) => ModelView::Connection(*c),
            Model::BufferLog(m) => ModelView::BufferLog(m@),
            Model::BufferRead(m) => ModelView::BufferRead(m@),
            Model::Probe(m) => ModelView::Probe(m@),
            Model::External(m) => ModelView::External(*m),
        }
    }
}

/// What `init` does to a model: the new model state and the reported status.
pub open spec fn spec_model_init(m: ModelView) -> (ModelView, RuntimeStatus) {
    match m {
        ModelView::Connection(_) => (m, RuntimeStatus::OK),
        ModelView::BufferLog(v) => {
            let r = spec_log_init(v);
            (ModelView::BufferLog(r.0), r.1)
        },
        ModelView::BufferRead(v) => {
            let r = spec_read_init(v);
            (ModelView::BufferRead(r.0), r.1)
        },
        ModelView::Probe(p) => (
            m,
            if p.init_ok {
                RuntimeStatus::OK
            } else {
                RuntimeStatus::ERROR
            },
        ),
        ModelView::External(e) => (m, e.status),
    }
}

/// What one `step` does to a model given the arena and the current tick:
/// the new model state, the new arena, and the reported status.
pub open spec fn spec_model_step(m: ModelView, a: Seq<u8>, tick: int) -> (
    ModelView,
    Seq<u8>,
    RuntimeStatus,
) {
    match m {
        ModelView::Connection(c) => (m, spec_conn_step_arena(c, a), spec_conn_step_status(c, a)),
        ModelView::BufferLog(v) => {
            let r = spec_log_step(v, a);
            (ModelView::BufferLog(r.0), r.1, r.2)
        },
        ModelView::BufferRead(v) => {
            let r = spec_read_step(v, a);
            (ModelView::BufferRead(r.0), r.1, r.2)
        },
        ModelView::Probe(p) => {
            let r = spec_probe_step(p, a, tick);
            (ModelView::Probe(r.0), r.1, r.2)
        },
        ModelView::External(e) => (m, a, e.status),
    }
}

/// What a model answers to `msg_get` for a field id: the field's bytes or
/// the unknown-field status.
pub open spec fn spec_model_msg_get(m: ModelView, id: Seq<u8>) -> Result<Seq<u8>, u32> {
    match m {
        ModelView::Connection(_) => Err(MSG_UNKNOWN),
        ModelView::BufferLog(v) => if id == spec_id_index() {
            Ok(vstd::bytes::spec_u64_to_le_bytes(v.index as u64))
        } else {
            Err(MSG_UNKNOWN)
        },
        ModelView::BufferRead(_) => Err(MSG_UNKNOWN),
        ModelView::Probe(p) => if id == spec_id_count() {
            Ok(vstd::bytes::spec_u64_to_le_bytes(p.ticks.len() as u64))
        } else {
            Err(MSG_UNKNOWN)
        },
        ModelView::External(_) => Err(MSG_UNKNOWN),
    }
}

/// What a model answers to `get_ptr` for a field id: the arena offset of
/// the field, when the model exposes one.
pub open spec fn spec_model_get_ptr(m: ModelView, id: Seq<u8>) -> Option<int> {
    match m {
        ModelView::Probe(p) => if id == spec_id_out() {
            Some(p.write_dst)
        } else {
            None
        },
        _ => None,
    }
}

impl Model {
    pub fn config(&mut self) -> (r: ConfigStatus)
        ensures
            *final(self) == *old(self),
            r == ConfigStatus::OK,
    {
        match self {
            Model::Connection(c) => c.config(),
            Model::BufferLog(m) => m.config(),
            Model::BufferRead(m) => m.config(),
            Model::Probe(m) => m.config(),
            Model::External(m) => m.config(),
        }
    }

    pub fn init(&mut self, intf: &mut RSISInterface) -> (r: RuntimeStatus)
        ensures
            (final(self)@, r) == spec_model_init(old(self)@),
            *final(intf) == *old(intf),
    {
        match self {
            Model::Connection(c) => c.init(intf),
            Model::BufferLog(m) => m.init(intf),
            Model::BufferRead(m) => m.init(intf),
            Model::Probe(m) => m.init(intf),
            Model::External(m) => m.init(intf),
        }
    }

    pub fn step(&mut self, intf: &mut RSISInterface) -> (r: RuntimeStatus)
        ensures
            (final(self)@, final(intf).arena@, r) == spec_model_step(
                old(self)@,
                old(intf).arena@,
                old(intf).time.time as int,
            ),
            final(intf).channels == old(intf).channels,
            final(intf).time == old(intf).time,
    {
        match self {
            Model::Connection(c) => c.step(intf),
            Model::BufferLog(m) => m.step(intf),
            Model::BufferRead(m) => m.step(intf),
            Model::Probe(m) => m.step(intf),
            Model::External(m) => m.step(intf),
        }
    }

    pub fn pause(&mut self) -> (r: RuntimeStatus)
        ensures
            *final(self) == *old(self),
            r == RuntimeStatus::OK,
    {
        match self {
            Model::Connection(c) => c.pause(),
            Model::BufferLog(m) => m.pause(),
            Model::BufferRead(m) => m.pause(),
            Model::Probe(m) => m.pause(),
            Model::External(m) => m.pause(),
        }
    }

    pub fn stop(&mut self) -> (r: RuntimeStatus)
        ensures
            *final(self) == *old(self),
            r == RuntimeStatus::OK,
    {
        match self {
            Model::Connection(c) => c.stop(),
            Model::BufferLog(m) => m.stop(),
            Model::BufferRead(m) => m.stop(),
            Model::Probe(m) => m.stop(),
            Model::External(m) => m.stop(),
        }
    }

    /// Read a named field of the model as owned bytes.
    pub fn msg_get(&self, id: &BufferStruct) -> (r: Result<BufferStruct, u32>)
        ensures
            (match r {
                Ok(d) => spec_model_msg_get(self@, id.bytes@) == Ok::<Seq<u8>, u32>(d.bytes@),
                Err(e) => spec_model_msg_get(self@, id.bytes@) == Err::<Seq<u8>, u32>(e),
            }),
    {
        match self {
            Model::Connection(c) => c.msg_get(id),
            Model::BufferLog(m) => m.msg_get(id),
            Model::BufferRead(m) => m.msg_get(id),
            Model::Probe(m) => m.msg_get(id),
            Model::External(m) => m.msg_get(id),
        }
    }

    /// Write a named field of the model from caller-supplied bytes.
    pub fn msg_set(&mut self, id: &BufferStruct, data: &BufferStruct) -> (r: u32)
        ensures
            *final(self) == *old(self),
            r == MSG_UNKNOWN,
    {
        match self {
            Model::Connection(c) => c.msg_set(id, data),
            Model::BufferLog(m) => m.msg_set(id, data),
            Model::BufferRead(m) => m.msg_set(id, data),
            Model::Probe(m) => m.msg_set(id, data),
            Model::External(m) => m.msg_set(id, data),
        }
    }

    /// Expose the arena offset of a named field for connection wiring.
    pub fn get_ptr(&self, id: &BufferStruct) -> (r: Option<usize>)
        ensures
            (match r {
                Some(p) => spec_model_get_ptr(self@, id.bytes@) == Some(p as int),
                None => spec_model_get_ptr(self@, id.bytes@) is None,
            }),
    {
        match self {
            Model::Connection(c) => c.get_ptr(id),
            Model::BufferLog(m) => m.get_ptr(id),
            Model::BufferRead(m) => m.get_ptr(id),
            Model::Probe(m) => m.get_ptr(id),
            Model::External(m) => m.get_ptr(id),
        }
    }
}

} // verus!
