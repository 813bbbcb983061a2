#![allow(non_camel_case_types)]
use vstd::prelude::*;
use crate::channel::RSISInterface;
use crate::modellib::{BufferStruct, ConfigStatus, RuntimeStatus, MSG_UNKNOWN};
use crate::modellib::{copy_region, spec_copy};

verus! {

/// Buffer reader: each step plays back one record, copying `sizes[i]` bytes
/// from `psrc[i]` advanced by one record per elapsed step into `pdst[i]`,
/// and reports FINISHED once `ndata` records have been replayed.
pub struct bufferread_app {
    pub psrc: Vec<usize>,
    pub pdst: Vec<usize>,
    pub sizes: Vec<usize>,
    pub ndata: usize,
    pub nports: usize,
    pub index: usize,
}

/// Spec-level state of a buffer reader.
#[verifier::ext_equal]
pub struct BufferReadView {
    pub psrc: Seq<int>,
    pub pdst: Seq<int>,
    pub sizes: Seq<int>,
    pub ndata: int,
    pub nports: int,
    pub index: int,
}

impl View for bufferread_app {
    type V = BufferReadView;

    open spec fn view(&self) -> BufferReadView {
        BufferReadView {
            psrc: self.psrc@.map_values(|x: usize| x as int),
            pdst: self.pdst@.map_values(|x: usize| x as int),
            sizes: self.sizes@.map_values(|x: usize| x as int),
            ndata: self.ndata as int,
            nports: self.nports as int,
            index: self.index as int,
        }
    }
}

/// A reader is valid when its three port tables have one entry per port.
pub open spec fn spec_read_valid(v: BufferReadView) -> bool {
    &&& v.pdst.len() == v.psrc.len()
    &&& v.sizes.len() == v.psrc.len()
}

/// `init` accepts a reader with consistent port tables and rewinds it to
/// its first record.
pub open spec fn spec_read_init(v: BufferReadView) -> (BufferReadView, RuntimeStatus) {
    if spec_read_valid(v) {
        (
            BufferReadView { nports: v.psrc.len() as int, index: 0, ..v },
            RuntimeStatus::OK,
        )
    } else {
        (v, RuntimeStatus::ERROR)
    }
}

/// Whether every port's current record and destination region fits an arena
/// of length `alen`, so that one step can run.
pub open spec fn spec_read_ports_ok(v: BufferReadView, alen: int) -> bool {
    &&& 0 <= v.nports <= v.psrc.len()
    &&& v.nports <= v.pdst.len()
    &&& v.nports <= v.sizes.len()
    &&& 0 <= v.index < usize::MAX
    &&& forall|i: int|
        0 <= i < v.nports ==> 0 <= v.sizes[i] && v.psrc[i] + v.index * v.sizes[i] + v.sizes[i]
            <= alen && v.pdst[i] + v.sizes[i] <= alen
}

/// The arena after the first `n` ports of one reader step have copied.
pub open spec fn spec_read_arena(a: Seq<u8>, v: BufferReadView, n: int) -> Seq<u8>
    decreases n,
{
    if n <= 0 {
        a
    } else {
        let prev = spec_read_arena(a, v, n - 1);
        spec_copy(prev, v.psrc[n - 1] + v.index * v.sizes[n - 1], v.pdst[n - 1], v.sizes[n - 1])
    }
}

/// One reader step: every port replays its current record and the record
/// index advances, reporting FINISHED on the last record; or nothing
/// happens and the step reports ERROR.
pub open spec fn spec_read_step(v: BufferReadView, a: Seq<u8>) -> (
    BufferReadView,
    Seq<u8>,
    RuntimeStatus,
) {
    if spec_read_ports_ok(v, a.len() as int) {
        (
            BufferReadView { index: v.index + 1, ..v },
            spec_read_arena(a, v, v.nports),
            if v.index + 1 >= v.ndata {
                RuntimeStatus::FINISHED
            } else {
                RuntimeStatus::OK
            },
        )
    } else {
        (v, a, RuntimeStatus::ERROR)
    }
}

proof fn lemma_spec_read_arena_len(a: Seq<u8>, v: BufferReadView, n: int)
    ensures
        spec_read_arena(a, v, n).len() == a.len(),
    decreases n,
{
    if n > 0 {
        lemma_spec_read_arena_len(a, v, n - 1);
    }
}

impl bufferread_app {
    pub fn new() -> (r: bufferread_app)
        ensures
            r@.psrc == Seq::<int>::empty(),
            r@.pdst == Seq::<int>::empty(),
            r@.sizes == Seq::<int>::empty(),
            r@.ndata == 0,
            r@.nports == 0,
            r@.index == 0,
    {
        let r = bufferread_app {
            psrc: Vec::new(),
            pdst: Vec::new(),
            sizes: Vec::new(),
            ndata: 0,
            nports: 0,
            index: 0,
        };
        proof {
            assert(r@.psrc =~= Seq::<int>::empty());
            assert(r@.pdst =~= Seq::<int>::empty());
            assert(r@.sizes =~= Seq::<int>::empty());
        }
        r
    }

    /// Register one port: each step replays `size` bytes of the current
    /// record at `src` into `dst`.
    pub fn add_port(&mut self, src: usize, dst: usize, size: usize)
        ensures
            final(self)@.psrc == old(self)@.psrc.push(src as int),
            final(self)@.pdst == old(self)@.pdst.push(dst as int),
            final(self)@.sizes == old(self)@.sizes.push(size as int),
            final(self)@.ndata == old(self)@.ndata,
            final(self)@.nports == old(self)@.nports,
            final(self)@.index == old(self)@.index,
    {
        self.psrc.push(src);
        self.pdst.push(dst);
        self.sizes.push(size);
        proof {
            assert(self@.psrc =~= old(self)@.psrc.push(src as int));
            assert(self@.pdst =~= old(self)@.pdst.push(dst as int));
            assert(self@.sizes =~= old(self)@.sizes.push(size as int));
        }
    }

    /// Set how many records the sources hold.
    pub fn set_ndata(&mut self, ndata: usize)
        ensures
            final(self)@ == (BufferReadView { ndata: ndata as int, ..old(self)@ }),
    {
        self.ndata = ndata;
        proof {
            assert(self@ =~= BufferReadView { ndata: ndata as int, ..old(self)@ });
        }
    }

    pub fn config(&mut self) -> (r: ConfigStatus)
        ensures
            *final(self) == *old(self),
            r == ConfigStatus::OK,
    {
        ConfigStatus::OK
    }

    pub fn init(&mut self, intf: &mut RSISInterface) -> (r: RuntimeStatus)
        ensures
            *final(intf) == *old(intf),
            (final(self)@, r) == spec_read_init(old(self)@),
    {
        let n = self.psrc.len();
        if self.pdst.len() != n {
            return RuntimeStatus::ERROR;
        }
        if self.sizes.len() != n {
            return RuntimeStatus::ERROR;
        }
        self.nports = n;
        self.index = 0;
        RuntimeStatus::OK
    }

    /// Replay the current record on every port, then advance the record
    /// index, reporting FINISHED once `ndata` records have been replayed.
    /// A port table or region that does not fit leaves the arena untouched
    /// and reports ERROR.
    pub fn step(&mut self, intf: &mut RSISInterface) -> (r: RuntimeStatus)
        ensures
            (final(self)@, final(intf).arena@, r) == spec_read_step(old(self)@, old(intf).arena@),
            final(intf).channels == old(intf).channels,
            final(intf).time == old(intf).time,
    {
        let alen = intf.arena.len();
        let n = self.nports;
        if n > self.psrc.len() || n > self.pdst.len() || n > self.sizes.len()
            || self.index == usize::MAX {
            return RuntimeStatus::ERROR;
        }
        let mut i: usize = 0;
        while i < n
            invariant
                i <= n,
                n == self@.nports,
                self@.index < usize::MAX,
                n <= self.psrc@.len(),
                n <= self.pdst@.len(),
                n <= self.sizes@.len(),
                alen == intf.arena@.len(),
                *self == *old(self),
                *intf == *old(intf),
                forall|j: int|
                    0 <= j < i ==> self@.sizes[j] >= 0 && self@.psrc[j] + self@.index
                        * self@.sizes[j] + self@.sizes[j] <= alen && self@.pdst[j] + self@.sizes[j]
                        <= alen,
            decreases n - i,
        {
            let size = self.sizes[i];
            match self.index.checked_mul(size) {
                Some(off) => {
                    if size > alen {
                        proof {
                            assert(self@.psrc[i as int] + self@.index * self@.sizes[i as int]
                                + self@.sizes[i as int] > alen);
                        }
                        return RuntimeStatus::ERROR;
                    }
                    if self.psrc[i] > alen - size {
                        proof {
                            assert(self@.psrc[i as int] + self@.index * self@.sizes[i as int]
                                + self@.sizes[i as int] > alen);
                        }
                        return RuntimeStatus::ERROR;
                    }
                    if off > (alen - size) - self.psrc[i] {
                        proof {
                            assert(self@.psrc[i as int] + self@.index * self@.sizes[i as int]
                                + self@.sizes[i as int] > alen);
                        }
                        return RuntimeStatus::ERROR;
                    }
                    if self.pdst[i] > alen - size {
                        proof {
                            assert(self@.pdst[i as int] + self@.sizes[i as int] > alen);
                        }
                        return RuntimeStatus::ERROR;
                    }
                },
                None => {
                    proof {
                        assert(self@.index * self@.sizes[i as int] > usize::MAX);
                        assert(self@.psrc[i as int] + self@.index * self@.sizes[i as int]
                            + self@.sizes[i as int] > alen);
                    }
                    return RuntimeStatus::ERROR;
                },
            }
            i = i + 1;
        }
        proof {
            assert(spec_read_ports_ok(self@, alen as int));
        }
        let mut k: usize = 0;
        while k < n
            invariant
                k <= n,
                n == old(self)@.nports,
                spec_read_ports_ok(old(self)@, alen as int),
                *self == *old(self),
                alen == old(intf).arena@.len(),
                intf.arena@ == spec_read_arena(old(intf).arena@, old(self)@, k as int),
                intf.channels == old(intf).channels,
                intf.time == old(intf).time,
            decreases n - k,
        {
            proof {
                lemma_spec_read_arena_len(old(intf).arena@, old(self)@, k as int);
                assert(old(self)@.sizes[k as int] >= 0 && old(self)@.psrc[k as int] + old(
                    self,
                )@.index * old(self)@.sizes[k as int] + old(self)@.sizes[k as int] <= alen as int
                    && old(self)@.pdst[k as int] + old(self)@.sizes[k as int] <= alen as int);
            }
            let size = self.sizes[k];
            let src = self.psrc[k];
            let dst = self.pdst[k];
            match self.index.checked_mul(size) {
                Some(off) => {
                    copy_region(&mut intf.arena, src + off, dst, size);
                },
                None => {
                    proof {
                        assert(false);
                    }
                },
            }
            k = k + 1;
        }
        self.index = self.index + 1;
        proof {
            assert(self@ =~= BufferReadView { index: old(self)@.index + 1, ..old(self)@ });
        }
        if self.index >= self.ndata {
            RuntimeStatus::FINISHED
        } else {
            RuntimeStatus::OK
        }
    }

    pub fn pause(&mut self) -> (r: RuntimeStatus)
        ensures
            *final(self) == *old(self),
            r == RuntimeStatus::OK,
    {
        RuntimeStatus::OK
    }

    pub fn stop(&mut self) -> (r: RuntimeStatus)
        ensures
            *final(self) == *old(self),
            r == RuntimeStatus::OK,
    {
        RuntimeStatus::OK
    }

    pub fn msg_get(&self, _id: &BufferStruct) -> (r: Result<BufferStruct, u32>)
        ensures
            r matches Err(e) && e == MSG_UNKNOWN,
    {
        Err(MSG_UNKNOWN)
    }

    pub fn msg_set(&mut self, _id: &BufferStruct, _data: &BufferStruct) -> (r: u32)
        ensures
            *final(self) == *old(self),
            r == MSG_UNKNOWN,
    {
        MSG_UNKNOWN
    }

    pub fn get_ptr(&self, _id: &BufferStruct) -> (r: Option<usize>)
        ensures
            r is None,
    {
        None
    }
}

} // verus!
