use vstd::prelude::*;
use crate::channel::RSISInterface;
use crate::modellib::{BufferStruct, ConfigStatus, RuntimeStatus, MSG_UNKNOWN};

verus! {

/// A model implemented outside this library: a foreign object the host
/// runtime names by `slot` and drives through its own call table. The
/// verified schedule decides *when* the foreign model is due; performing
/// the foreign call is the host's action, and the host hands the outcome
/// back by depositing it in `status` before the frame runs. `init` and
/// `step` report whatever outcome was deposited, so the schedule, error
/// handling and lifecycle are verified for every possible foreign result.
#[derive(Copy, Clone, PartialEq, Eq, Structural, Debug)]
#[verifier::ext_equal]
pub struct ExternalModel {
    pub slot: u64,
    pub status: RuntimeStatus,
}

impl ExternalModel {
    pub fn new(slot: u64) -> (r: ExternalModel)
        ensures
            r.slot == slot,
            r.status == RuntimeStatus::OK,
    {
        ExternalModel { slot, status: RuntimeStatus::OK }
    }

    /// Deposit the outcome of the host's most recent foreign call.
    pub fn set_status(&mut self, status: RuntimeStatus)
        ensures
            final(self).slot == old(self).slot,
            final(self).status == status,
    {
        self.status = status;
    }

    pub fn config(&mut self) -> (r: ConfigStatus)
        ensures
            *final(self) == *old(self),
            r == ConfigStatus::OK,
    {
        ConfigStatus::OK
    }

    /// Reports the deposited outcome of the foreign init call.
    pub fn init(&mut self, intf: &mut RSISInterface) -> (r: RuntimeStatus)
        ensures
            *final(self) == *old(self),
            *final(intf) == *old(intf),
            r == old(self).status,
    {
        self.status
    }

    /// Reports the deposited outcome of the foreign step call. The foreign
    /// model's own memory is outside the arena, so the arena is untouched.
    pub fn step(&mut self, intf: &mut RSISInterface) -> (r: RuntimeStatus)
        ensures
            *final(self) == *old(self),
            *final(intf) == *old(intf),
            r == old(self).status,
    {
        self.status
    }

    pub fn pause(&mut self) -> (r: RuntimeStatus)
        ensures
            *final(self) == *old(self),
            r == RuntimeStatus::OK,
    {
        RuntimeStatus::OK
    }

    pub fn stop(&mut self) -> (r: RuntimeStatus)
        ensures
            *final(self) == *old(self),
            r == RuntimeStatus::OK,
    {
        RuntimeStatus::OK
    }

    /// Foreign fields are read through the host's own call table, never
    /// through the library.
    pub fn msg_get(&self, _id: &BufferStruct) -> (r: Result<BufferStruct, u32>)
        ensures
            r matches Err(e) && e == MSG_UNKNOWN,
    {
        Err(MSG_UNKNOWN)
    }

    pub fn msg_set(&mut self, _id: &BufferStruct, _data: &BufferStruct) -> (r: u32)
        ensures
            *final(self) == *old(self),
            r == MSG_UNKNOWN,
    {
        MSG_UNKNOWN
    }

    pub fn get_ptr(&self, _id: &BufferStruct) -> (r: Option<usize>)
        ensures
            r is None,
    {
        None
    }
}

} // verus!
