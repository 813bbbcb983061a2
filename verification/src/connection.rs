use vstd::prelude::*;
use crate::channel::RSISInterface;
use crate::modellib::{BufferStruct, ConfigStatus, RuntimeStatus, MSG_UNKNOWN};
use crate::modellib::{copy_region, spec_copy};

verus! {

/// Zero-copy wiring between two model fields: each step moves `size` arena
/// bytes from offset `src` to offset `dst`. The driver must place a
/// connection in the same rate group as both endpoints, after the producer
/// and before the consumer.
#[derive(Copy, Clone, PartialEq, Eq, Structural, Debug)]
#[verifier::ext_equal]
pub struct Connection {
    pub src: usize,
    pub dst: usize,
    pub size: usize,
}

/// Whether both regions of a connection lie inside an arena of length `alen`.
pub open spec fn spec_conn_in_bounds(c: Connection, alen: int) -> bool {
    &&& c.src + c.size <= alen
    &&& c.dst + c.size <= alen
}

/// The arena after one connection step: the copy when both regions fit,
/// otherwise the arena untouched.
pub open spec fn spec_conn_step_arena(c: Connection, a: Seq<u8>) -> Seq<u8> {
    if spec_conn_in_bounds(c, a.len() as int) {
        spec_copy(a, c.src as int, c.dst as int, c.size as int)
    } else {
        a
    }
}

/// The status of one connection step: OK when both regions fit, else ERROR.
pub open spec fn spec_conn_step_status(c: Connection, a: Seq<u8>) -> RuntimeStatus {
    if spec_conn_in_bounds(c, a.len() as int) {
        RuntimeStatus::OK
    } else {
        RuntimeStatus::ERROR
    }
}

impl Connection {
    pub fn config(&mut self) -> (r: ConfigStatus)
        ensures
            *final(self) == *old(self),
            r == ConfigStatus::OK,
    {
        ConfigStatus::OK
    }

    pub fn init(&mut self, intf: &mut RSISInterface) -> (r: RuntimeStatus)
        ensures
            *final(self) == *old(self),
            *final(intf) == *old(intf),
            r == RuntimeStatus::OK,
    {
        RuntimeStatus::OK
    }

    /// Copy `size` bytes from `src` to `dst` in the arena. Rejects (ERROR,
    /// arena untouched) a region that does not fit the arena.
    pub fn step(&mut self, intf: &mut RSISInterface) -> (r: RuntimeStatus)
        ensures
            *final(self) == *old(self),
            final(intf).arena@ == spec_conn_step_arena(*old(self), old(intf).arena@),
            r == spec_conn_step_status(*old(self), old(intf).arena@),
            final(intf).channels == old(intf).channels,
            final(intf).time == old(intf).time,
    {
        let alen = intf.arena.len();
        if self.size <= alen && self.src <= alen - self.size && self.dst <= alen - self.size {
            copy_region(&mut intf.arena, self.src, self.dst, self.size);
            RuntimeStatus::OK
        } else {
            RuntimeStatus::ERROR
        }
    }

    pub fn pause(&mut self) -> (r: RuntimeStatus)
        ensures
            *final(self) == *old(self),
            r == RuntimeStatus::OK,
    {
        RuntimeStatus::OK
    }

    pub fn stop(&mut self) -> (r: RuntimeStatus)
        ensures
            *final(self) == *old(self),
            r == RuntimeStatus::OK,
    {
        RuntimeStatus::OK
    }

    /// Connections expose no named fields.
    pub fn msg_get(&self, _id: &BufferStruct) -> (r: Result<BufferStruct, u32>)
        ensures
            r matches Err(e) && e == MSG_UNKNOWN,
    {
        Err(MSG_UNKNOWN)
    }

    pub fn msg_set(&mut self, _id: &BufferStruct, _data: &BufferStruct) -> (r: u32)
        ensures
            *final(self) == *old(self),
            r == MSG_UNKNOWN,
    {
        MSG_UNKNOWN
    }

    pub fn get_ptr(&self, _id: &BufferStruct) -> (r: Option<usize>)
        ensures
            r is None,
    {
        None
    }
}

} // verus!
