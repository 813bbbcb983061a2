#![allow(non_camel_case_types)]
use vstd::prelude::*;
use crate::channel::RSISInterface;
use crate::modellib::{BufferStruct, ConfigStatus, RuntimeStatus, MSG_UNKNOWN};
use crate::modellib::{bytes_eq, copy_region, spec_copy};

verus! {

/// Buffer logger: each step appends a snapshot of every source region into
/// its destination region, shifted by one byte per elapsed step.
pub struct bufferlog_app {
    pub psrc: Vec<usize>,
    pub pdst: Vec<usize>,
    pub sizes: Vec<usize>,
    pub nports: usize,
    pub index: usize,
}

/// Spec-level state of a buffer logger.
#[verifier::ext_equal]
pub struct BufferLogView {
    pub psrc: Seq<int>,
    pub pdst: Seq<int>,
    pub sizes: Seq<int>,
    pub nports: int,
    pub index: int,
}

impl View for bufferlog_app {
    type V = BufferLogView;

    open spec fn view(&self) -> BufferLogView {
        BufferLogView {
            psrc: self.psrc@.map_values(|x: usize| x as int),
            pdst: self.pdst@.map_values(|x: usize| x as int),
            sizes: self.sizes@.map_values(|x: usize| x as int),
            nports: self.nports as int,
            index: self.index as int,
        }
    }
}

/// A logger is valid when its three port tables have one entry per port.
pub open spec fn spec_log_valid(v: BufferLogView) -> bool {
    &&& v.pdst.len() == v.psrc.len()
    &&& v.sizes.len() == v.psrc.len()
}

/// `init` accepts a logger with consistent port tables and resets it to its
/// first log slot.
pub open spec fn spec_log_init(v: BufferLogView) -> (BufferLogView, RuntimeStatus) {
    if spec_log_valid(v) {
        (
            BufferLogView { nports: v.psrc.len() as int, index: 0, ..v },
            RuntimeStatus::OK,
        )
    } else {
        (v, RuntimeStatus::ERROR)
    }
}

/// Whether every port's source and shifted destination region fits an arena
/// of length `alen`, so that one step can run.
pub open spec fn spec_log_ports_ok(v: BufferLogView, alen: int) -> bool {
    &&& 0 <= v.nports <= v.psrc.len()
    &&& v.nports <= v.pdst.len()
    &&& v.nports <= v.sizes.len()
    &&& 0 <= v.index < usize::MAX
    &&& forall|i: int|
        0 <= i < v.nports ==> 0 <= v.sizes[i] && v.psrc[i] + v.sizes[i] <= alen && v.pdst[i]
            + v.index + v.sizes[i] <= alen
}

/// The arena after the first `n` ports of one logger step have copied.
pub open spec fn spec_log_arena(a: Seq<u8>, v: BufferLogView, n: int) -> Seq<u8>
    decreases n,
{
    if n <= 0 {
        a
    } else {
        let prev = spec_log_arena(a, v, n - 1);
        spec_copy(prev, v.psrc[n - 1], v.pdst[n - 1] + v.index, v.sizes[n - 1])
    }
}

/// One logger step: all ports copy and the slot index advances, or nothing
/// happens and the step reports ERROR.
pub open spec fn spec_log_step(v: BufferLogView, a: Seq<u8>) -> (BufferLogView, Seq<u8>, RuntimeStatus) {
    if spec_log_ports_ok(v, a.len() as int) {
        (
            BufferLogView { index: v.index + 1, ..v },
            spec_log_arena(a, v, v.nports),
            RuntimeStatus::OK,
        )
    } else {
        (v, a, RuntimeStatus::ERROR)
    }
}

proof fn lemma_spec_log_arena_len(a: Seq<u8>, v: BufferLogView, n: int)
    ensures
        spec_log_arena(a, v, n).len() == a.len(),
    decreases n,
{
    if n > 0 {
        lemma_spec_log_arena_len(a, v, n - 1);
    }
}

impl bufferlog_app {
    pub fn new() -> (r: bufferlog_app)
        ensures
            r@.psrc == Seq::<int>::empty(),
            r@.pdst == Seq::<int>::empty(),
            r@.sizes == Seq::<int>::empty(),
            r@.nports == 0,
            r@.index == 0,
    {
        let r = bufferlog_app {
            psrc: Vec::new(),
            pdst: Vec::new(),
            sizes: Vec::new(),
            nports: 0,
            index: 0,
        };
        proof {
            assert(r@.psrc =~= Seq::<int>::empty());
            assert(r@.pdst =~= Seq::<int>::empty());
            assert(r@.sizes =~= Seq::<int>::empty());
        }
        r
    }

    /// Register one port: `size` bytes are logged from `src` to `dst` plus
    /// the running slot index.
    pub fn add_port(&mut self, src: usize, dst: usize, size: usize)
        ensures
            final(self)@.psrc == old(self)@.psrc.push(src as int),
            final(self)@.pdst == old(self)@.pdst.push(dst as int),
            final(self)@.sizes == old(self)@.sizes.push(size as int),
            final(self)@.nports == old(self)@.nports,
            final(self)@.index == old(self)@.index,
    {
        self.psrc.push(src);
        self.pdst.push(dst);
        self.sizes.push(size);
        proof {
            assert(self@.psrc =~= old(self)@.psrc.push(src as int));
            assert(self@.pdst =~= old(self)@.pdst.push(dst as int));
            assert(self@.sizes =~= old(self)@.sizes.push(size as int));
        }
    }

    pub fn config(&mut self) -> (r: ConfigStatus)
        ensures
            *final(self) == *old(self),
            r == ConfigStatus::OK,
    {
        ConfigStatus::OK
    }

    pub fn init(&mut self, intf: &mut RSISInterface) -> (r: RuntimeStatus)
        ensures
            *final(intf) == *old(intf),
            (final(self)@, r) == spec_log_init(old(self)@),
    {
        let n = self.psrc.len();
        if self.pdst.len() != n {
            return RuntimeStatus::ERROR;
        }
        if self.sizes.len() != n {
            return RuntimeStatus::ERROR;
        }
        self.nports = n;
        self.index = 0;
        RuntimeStatus::OK
    }

    /// Copy every port's source region to its destination region shifted by
    /// the slot index, then advance the index. A port table or region that
    /// does not fit leaves the arena untouched and reports ERROR.
    pub fn step(&mut self, intf: &mut RSISInterface) -> (r: RuntimeStatus)
        ensures
            (final(self)@, final(intf).arena@, r) == spec_log_step(old(self)@, old(intf).arena@),
            final(intf).channels == old(intf).channels,
            final(intf).time == old(intf).time,
    {
        let alen = intf.arena.len();
        let n = self.nports;
        if n > self.psrc.len() || n > self.pdst.len() || n > self.sizes.len()
            || self.index == usize::MAX {
            return RuntimeStatus::ERROR;
        }
        let mut i: usize = 0;
        while i < n
            invariant
                i <= n,
                n == self@.nports,
                self@.index < usize::MAX,
                n <= self.psrc@.len(),
                n <= self.pdst@.len(),
                n <= self.sizes@.len(),
                alen == intf.arena@.len(),
                *self == *old(self),
                *intf == *old(intf),
                forall|j: int|
                    0 <= j < i ==> self@.sizes[j] >= 0 && self@.psrc[j] + self@.sizes[j] <= alen
                        && self@.pdst[j] + self@.index + self@.sizes[j] <= alen,
            decreases n - i,
        {
            let size = self.sizes[i];
            if size > alen {
                proof {
                    assert(self@.psrc[i as int] + self@.sizes[i as int] > alen);
                }
                return RuntimeStatus::ERROR;
            }
            if self.psrc[i] > alen - size {
                proof {
                    assert(self@.psrc[i as int] + self@.sizes[i as int] > alen);
                }
                return RuntimeStatus::ERROR;
            }
            if self.pdst[i] > alen - size {
                proof {
                    assert(self@.pdst[i as int] + self@.index + self@.sizes[i as int] > alen);
                }
                return RuntimeStatus::ERROR;
            }
            if self.index > (alen - size) - self.pdst[i] {
                proof {
                    assert(self@.pdst[i as int] + self@.index + self@.sizes[i as int] > alen);
                }
                return RuntimeStatus::ERROR;
            }
            i = i + 1;
        }
        proof {
            assert(spec_log_ports_ok(self@, alen as int));
        }
        let mut k: usize = 0;
        while k < n
            invariant
                k <= n,
                n == old(self)@.nports,
                spec_log_ports_ok(old(self)@, alen as int),
                *self == *old(self),
                alen == old(intf).arena@.len(),
                intf.arena@ == spec_log_arena(old(intf).arena@, old(self)@, k as int),
                intf.channels == old(intf).channels,
                intf.time == old(intf).time,
            decreases n - k,
        {
            proof {
                lemma_spec_log_arena_len(old(intf).arena@, old(self)@, k as int);
                assert(old(self)@.psrc[k as int] + old(self)@.sizes[k as int] <= alen as int
                    && old(self)@.pdst[k as int] + old(self)@.index + old(self)@.sizes[k as int]
                    <= alen as int);
            }
            let src = self.psrc[k];
            let dst = self.pdst[k];
            let size = self.sizes[k];
            copy_region(&mut intf.arena, src, dst + self.index, size);
            k = k + 1;
        }
        self.index = self.index + 1;
        proof {
            assert(self@ =~= BufferLogView { index: old(self)@.index + 1, ..old(self)@ });
        }
        RuntimeStatus::OK
    }

    pub fn pause(&mut self) -> (r: RuntimeStatus)
        ensures
            *final(self) == *old(self),
            r == RuntimeStatus::OK,
    {
        RuntimeStatus::OK
    }

    pub fn stop(&mut self) -> (r: RuntimeStatus)
        ensures
            *final(self) == *old(self),
            r == RuntimeStatus::OK,
    {
        RuntimeStatus::OK
    }

    /// The logger exposes one readable field, its slot index, under the
    /// byte-string id `index`.
    pub fn msg_get(&self, id: &BufferStruct) -> (r: Result<BufferStruct, u32>)
        ensures
            id.bytes@ == spec_id_index() ==> (r matches Ok(d) && d.bytes@
                == vstd::bytes::spec_u64_to_le_bytes(self.index as u64)),
            id.bytes@ != spec_id_index() ==> (r matches Err(e) && e == MSG_UNKNOWN),
    {
        let tag = id_index();
        if bytes_eq(id.bytes.as_slice(), tag.as_slice()) {
            let data = vstd::bytes::u64_to_le_bytes(self.index as u64);
            Ok(BufferStruct { bytes: data })
        } else {
            Err(MSG_UNKNOWN)
        }
    }

    pub fn msg_set(&mut self, _id: &BufferStruct, _data: &BufferStruct) -> (r: u32)
        ensures
            *final(self) == *old(self),
            r == MSG_UNKNOWN,
    {
        MSG_UNKNOWN
    }

    pub fn get_ptr(&self, _id: &BufferStruct) -> (r: Option<usize>)
        ensures
            r is None,
    {
        None
    }
}

/// The byte-string id of the logger's `index` field: the ASCII bytes of
/// the word `index`.
pub open spec fn spec_id_index() -> Seq<u8> {
    seq![105u8, 110u8, 100u8, 101u8, 120u8]
}

/// Executable form of the `index` field id.
pub fn id_index() -> (r: Vec<u8>)
    ensures
        r@ == spec_id_index(),
{
    let mut v: Vec<u8> = Vec::new();
    v.push(105);
    v.push(110);
    v.push(100);
    v.push(101);
    v.push(120);
    proof {
        assert(v@ =~= spec_id_index());
    }
    v
}

} // verus!
