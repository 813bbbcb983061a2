use vstd::prelude::*;
use crate::channel::RSISInterface;
use crate::modellib::{BufferStruct, ConfigStatus, RuntimeStatus, MSG_UNKNOWN};
use crate::modellib::bytes_eq;

verus! {

/// Diagnostic model: records the simulation tick on every step, optionally
/// writes a fixed byte pattern into the arena each step, and can be set up
/// to fail its `init`.
pub struct ProbeModel {
    pub ticks: Vec<i64>,
    pub init_ok: bool,
    pub write_dst: usize,
    pub write_bytes: Vec<u8>,
}

/// Spec-level state of a probe.
#[verifier::ext_equal]
pub struct ProbeView {
    pub ticks: Seq<int>,
    pub init_ok: bool,
    pub write_dst: int,
    pub write_bytes: Seq<u8>,
}

impl View for ProbeModel {
    type V = ProbeView;

    open spec fn view(&self) -> ProbeView {
        ProbeView {
            ticks: self.ticks@.map_values(|t: i64| t as int),
            init_ok: self.init_ok,
            write_dst: self.write_dst as int,
            write_bytes: self.write_bytes@,
        }
    }
}

/// The arena after a probe wrote its pattern at its destination offset.
pub open spec fn spec_probe_write(a: Seq<u8>, dst: int, bytes: Seq<u8>) -> Seq<u8> {
    Seq::new(a.len(), |i: int| if dst <= i < dst + bytes.len() { bytes[i - dst] } else { a[i] })
}

/// One probe step: the tick is recorded and the pattern written, or, when
/// the pattern does not fit the arena, nothing happens and ERROR is
/// reported.
pub open spec fn spec_probe_step(v: ProbeView, a: Seq<u8>, tick: int) -> (
    ProbeView,
    Seq<u8>,
    RuntimeStatus,
) {
    if v.write_bytes.len() == 0 {
        (ProbeView { ticks: v.ticks.push(tick), ..v }, a, RuntimeStatus::OK)
    } else if v.write_dst + v.write_bytes.len() <= a.len() {
        (
            ProbeView { ticks: v.ticks.push(tick), ..v },
            spec_probe_write(a, v.write_dst, v.write_bytes),
            RuntimeStatus::OK,
        )
    } else {
        (v, a, RuntimeStatus::ERROR)
    }
}

impl ProbeModel {
    pub fn new() -> (r: ProbeModel)
        ensures
            r@.ticks == Seq::<int>::empty(),
            r@.init_ok,
            r@.write_dst == 0,
            r@.write_bytes == Seq::<u8>::empty(),
    {
        let r = ProbeModel { ticks: Vec::new(), init_ok: true, write_dst: 0, write_bytes: Vec::new() };
        proof {
            assert(r@.ticks =~= Seq::<int>::empty());
        }
        r
    }

    /// Make `init` report ERROR.
    pub fn fail_init(&mut self)
        ensures
            final(self)@ == (ProbeView { init_ok: false, ..old(self)@ }),
    {
        self.init_ok = false;
        proof {
            assert(self@ =~= ProbeView { init_ok: false, ..old(self)@ });
        }
    }

    /// Write `bytes` into the arena at `dst` on every step.
    pub fn set_write(&mut self, dst: usize, bytes: Vec<u8>)
        ensures
            final(self)@ == (ProbeView {
                write_dst: dst as int,
                write_bytes: bytes@,
                ..old(self)@
            }),
    {
        self.write_dst = dst;
        self.write_bytes = bytes;
        proof {
            assert(self@ =~= ProbeView {
                write_dst: dst as int,
                write_bytes: self.write_bytes@,
                ..old(self)@
            });
        }
    }

    pub fn config(&mut self) -> (r: ConfigStatus)
        ensures
            *final(self) == *old(self),
            r == ConfigStatus::OK,
    {
        ConfigStatus::OK
    }

    /// Reports ERROR exactly when the probe was set up to fail.
    pub fn init(&mut self, intf: &mut RSISInterface) -> (r: RuntimeStatus)
        ensures
            *final(self) == *old(self),
            *final(intf) == *old(intf),
            r == (if old(self)@.init_ok {
                RuntimeStatus::OK
            } else {
                RuntimeStatus::ERROR
            }),
    {
        if self.init_ok {
            RuntimeStatus::OK
        } else {
            RuntimeStatus::ERROR
        }
    }

    pub fn step(&mut self, intf: &mut RSISInterface) -> (r: RuntimeStatus)
        ensures
            (final(self)@, final(intf).arena@, r) == spec_probe_step(
                old(self)@,
                old(intf).arena@,
                old(intf).time.time as int,
            ),
            final(intf).channels == old(intf).channels,
            final(intf).time == old(intf).time,
    {
        let nw = self.write_bytes.len();
        if nw == 0 {
            let tick = intf.time.time;
            self.ticks.push(tick);
            proof {
                assert(self@ =~= ProbeView {
                    ticks: old(self)@.ticks.push(old(intf).time.time as int),
                    ..old(self)@
                });
            }
            return RuntimeStatus::OK;
        }
        let alen = intf.arena.len();
        if nw > alen || self.write_dst > alen - nw {
            return RuntimeStatus::ERROR;
        }
        let tick = intf.time.time;
        self.ticks.push(tick);
        let mut j: usize = 0;
        while j < nw
            invariant
                j <= nw,
                nw == old(self)@.write_bytes.len(),
                self.write_dst == old(self).write_dst,
                self.write_bytes == old(self).write_bytes,
                self.write_dst + nw <= alen,
                alen == intf.arena@.len(),
                alen == old(intf).arena@.len(),
                forall|x: int|
                    0 <= x < alen && !(self.write_dst <= x < self.write_dst + j) ==> intf.arena@[x]
                        == old(intf).arena@[x],
                forall|x: int|
                    self.write_dst <= x < self.write_dst + j ==> intf.arena@[x] == old(
                        self,
                    )@.write_bytes[x - self.write_dst],
                intf.channels == old(intf).channels,
                intf.time == old(intf).time,
            decreases nw - j,
        {
            let byte = self.write_bytes[j];
            intf.arena[self.write_dst + j] = byte;
            j = j + 1;
        }
        proof {
            assert(self@ =~= ProbeView {
                ticks: old(self)@.ticks.push(old(intf).time.time as int),
                ..old(self)@
            });
            assert(intf.arena@ =~= spec_probe_write(
                old(intf).arena@,
                old(self)@.write_dst,
                old(self)@.write_bytes,
            ));
        }
        RuntimeStatus::OK
    }

    pub fn pause(&mut self) -> (r: RuntimeStatus)
        ensures
            *final(self) == *old(self),
            r == RuntimeStatus::OK,
    {
        RuntimeStatus::OK
    }

    pub fn stop(&mut self) -> (r: RuntimeStatus)
        ensures
            *final(self) == *old(self),
            r == RuntimeStatus::OK,
    {
        RuntimeStatus::OK
    }

    /// The probe exposes one readable field, the number of recorded ticks,
    /// under the byte-string id `count`.
    pub fn msg_get(&self, id: &BufferStruct) -> (r: Result<BufferStruct, u32>)
        ensures
            id.bytes@ == spec_id_count() ==> (r matches Ok(d) && d.bytes@
                == vstd::bytes::spec_u64_to_le_bytes(self.ticks@.len() as u64)),
            id.bytes@ != spec_id_count() ==> (r matches Err(e) && e == MSG_UNKNOWN),
    {
        let tag = id_count();
        if bytes_eq(id.bytes.as_slice(), tag.as_slice()) {
            let count: u64 = self.ticks.len() as u64;
            let data = vstd::bytes::u64_to_le_bytes(count);
            Ok(BufferStruct { bytes: data })
        } else {
            Err(MSG_UNKNOWN)
        }
    }

    pub fn msg_set(&mut self, _id: &BufferStruct, _data: &BufferStruct) -> (r: u32)
        ensures
            *final(self) == *old(self),
            r == MSG_UNKNOWN,
    {
        MSG_UNKNOWN
    }

    /// The probe exposes the offset of its write region under the
    /// byte-string id `out`.
    pub fn get_ptr(&self, id: &BufferStruct) -> (r: Option<usize>)
        ensures
            id.bytes@ == spec_id_out() ==> r == Some(self.write_dst),
            id.bytes@ != spec_id_out() ==> r is None,
    {
        let tag = id_out();
        if bytes_eq(id.bytes.as_slice(), tag.as_slice()) {
            Some(self.write_dst)
        } else {
            None
        }
    }
}

/// The byte-string id of the probe's tick counter: the ASCII bytes of the
/// word `count`.
pub open spec fn spec_id_count() -> Seq<u8> {
    seq![99u8, 111u8, 117u8, 110u8, 116u8]
}

/// Executable form of the `count` field id.
pub fn id_count() -> (r: Vec<u8>)
    ensures
        r@ == spec_id_count(),
{
    let mut v: Vec<u8> = Vec::new();
    v.push(99);
    v.push(111);
    v.push(117);
    v.push(110);
    v.push(116);
    proof {
        assert(v@ =~= spec_id_count());
    }
    v
}

/// The byte-string id of the probe's write region: the ASCII bytes of the
/// word `out`.
pub open spec fn spec_id_out() -> Seq<u8> {
    seq![111u8, 117u8, 116u8]
}

/// Executable form of the `out` field id.
pub fn id_out() -> (r: Vec<u8>)
    ensures
        r@ == spec_id_out(),
{
    let mut v: Vec<u8> = Vec::new();
    v.push(111);
    v.push(117);
    v.push(116);
    proof {
        assert(v@ =~= spec_id_out());
    }
    v
}

} // verus!
