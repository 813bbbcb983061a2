use vstd::prelude::*;
use vstd::hash_map::HashMapWithView;
use crate::epoch::EpochTime;

verus! {

/// `data_buffer::DataBuffer` is the opaque, owned byte payload shipped
/// across channels; the registry stores and forwards it without reading it.
#[verifier::external_type_specification]
#[verifier::external_body]
pub struct ExDataBuffer(data_buffer::DataBuffer);

/// One id-keyed channel: a FIFO of payloads plus the record of whether the
/// single receive endpoint has already been handed out.
pub struct ChannelPairStorage {
    pub queue: Vec<data_buffer::DataBuffer>,
    pub rx_taken: bool,
}

impl ChannelPairStorage {
    pub fn new() -> (r: ChannelPairStorage)
        ensures
            r.queue@ == Seq::<data_buffer::DataBuffer>::empty(),
            !r.rx_taken,
    {
        ChannelPairStorage { queue: Vec::new(), rx_taken: false }
    }
}

/// Receive endpoint for one channel id. At most one exists per id.
pub struct MpscRx {
    pub id: i64,
}

/// Send endpoint for one channel id. Any number may exist.
pub struct MpscTx {
    pub id: i64,
}

/// What a non-blocking receive observed.
pub enum RecvStatus {
    Data(data_buffer::DataBuffer),
    Empty,
    Disconnected,
}

/// The framework interface shared by every model: the channel registry, the
/// simulation clock, and the byte arena that models expose fields in.
pub struct RSISInterface {
    pub channels: HashMapWithView<i64, ChannelPairStorage>,
    pub time: EpochTime,
    pub arena: Vec<u8>,
}

impl RSISInterface {
    pub open spec fn wf(self) -> bool {
        self.time.wf()
    }

    pub fn new() -> (r: RSISInterface)
        ensures
            r.wf(),
            r.channels@ == Map::<i64, ChannelPairStorage>::empty(),
            r.time.epoch == 0 && r.time.time == 0 && r.time.rollover == i64::MAX,
            r.arena@ == Seq::<u8>::empty(),
    {
        RSISInterface { channels: HashMapWithView::new(), time: EpochTime::new(), arena: Vec::new() }
    }

    /// Drop every channel pair, invalidating all outstanding endpoints.
    pub fn clear(&mut self)
        ensures
            final(self).channels@ == Map::<i64, ChannelPairStorage>::empty(),
            final(self).time == old(self).time,
            final(self).arena == old(self).arena,
    {
        self.channels.clear();
    }

    /// Current simulation tick of the shared clock.
    pub fn get_simtick(&self) -> (r: i64)
        ensures
            r == self.time.time,
    {
        self.time.time
    }

    /// Append `size` zeroed bytes to the arena and return the offset of the
    /// new region. Models and connections address arena bytes by offset.
    pub fn reserve_region(&mut self, size: usize) -> (offset: usize)
        requires
            old(self).arena@.len() + size <= usize::MAX,
        ensures
            offset == old(self).arena@.len(),
            final(self).arena@.len() == old(self).arena@.len() + size,
            forall|i: int| 0 <= i < old(self).arena@.len() ==> final(self).arena@[i] == old(self).arena@[i],
            forall|i: int|
                old(self).arena@.len() <= i < final(self).arena@.len() ==> final(self).arena@[i] == 0,
            final(self).channels == old(self).channels,
            final(self).time == old(self).time,
    {
        let offset = self.arena.len();
        let mut k: usize = 0;
        while k < size
            invariant
                k <= size,
                offset == old(self).arena@.len(),
                self.arena@.len() == offset + k,
                forall|i: int| 0 <= i < offset ==> self.arena@[i] == old(self).arena@[i],
                forall|i: int| offset <= i < offset + k ==> self.arena@[i] == 0,
                offset + size <= usize::MAX,
                self.channels == old(self).channels,
                self.time == old(self).time,
            decreases size - k,
        {
            self.arena.push(0);
            k = k + 1;
        }
        offset
    }

    /// Hand out the receive endpoint for `id`, creating the channel pair on
    /// first use. The endpoint exists exactly once: later requests get None.
    pub fn request_rx(&mut self, id: i64) -> (r: Option<MpscRx>)
        ensures
            // the endpoint is granted exactly when it was never granted before
            (r is Some) == !(old(self).channels@.contains_key(id)
                && old(self).channels@[id].rx_taken),
            r matches Some(rx) ==> rx.id == id,
            // afterwards the pair exists and its receive side is recorded taken
            final(self).channels@.contains_key(id),
            final(self).channels@[id].rx_taken,
            // pending messages for `id` survive
            final(self).channels@[id].queue@ == (if old(self).channels@.contains_key(id) {
                old(self).channels@[id].queue@
            } else {
                Seq::<data_buffer::DataBuffer>::empty()
            }),
            // no other id is touched
            forall|j: i64|
                j != id ==> old(self).channels@.contains_key(j) == #[trigger] final(self).channels@.contains_key(j),
            forall|j: i64|
                j != id && old(self).channels@.contains_key(j) ==> old(self).channels@[j]
                    == #[trigger] final(self).channels@[j],
            final(self).time == old(self).time,
            final(self).arena == old(self).arena,
    {
        if !self.channels.contains_key(&id) {
            self.channels.insert(id, ChannelPairStorage::new());
        }
        match self.channels.remove(&id) {
            Some(pair) => {
                if pair.rx_taken {
                    self.channels.insert(id, pair);
                    None
                } else {
                    let granted = ChannelPairStorage { queue: pair.queue, rx_taken: true };
                    self.channels.insert(id, granted);
                    Some(MpscRx { id })
                }
            },
            None => {
                proof {
                    assert(false);
                }
                None
            },
        }
    }

    /// Hand out a send endpoint for `id`, creating the channel pair on first
    /// use. Any number of send endpoints may exist for one id.
    pub fn request_tx(&mut self, id: i64) -> (r: MpscTx)
        ensures
            r.id == id,
            final(self).channels@.contains_key(id),
            final(self).channels@[id].rx_taken == (old(self).channels@.contains_key(id)
                && old(self).channels@[id].rx_taken),
            final(self).channels@[id].queue@ == (if old(self).channels@.contains_key(id) {
                old(self).channels@[id].queue@
            } else {
                Seq::<data_buffer::DataBuffer>::empty()
            }),
            forall|j: i64|
                j != id ==> old(self).channels@.contains_key(j) == #[trigger] final(self).channels@.contains_key(j),
            forall|j: i64|
                j != id && old(self).channels@.contains_key(j) ==> old(self).channels@[j]
                    == #[trigger] final(self).channels@[j],
            final(self).time == old(self).time,
            final(self).arena == old(self).arena,
    {
        if !self.channels.contains_key(&id) {
            self.channels.insert(id, ChannelPairStorage::new());
        }
        MpscTx { id }
    }
}

impl MpscTx {
    /// Enqueue one payload. Fails (returns false, payload dropped) only when
    /// the channel pair no longer exists, i.e. the registry was cleared.
    pub fn send(&self, intf: &mut RSISInterface, data: data_buffer::DataBuffer) -> (ok: bool)
        ensures
            ok == old(intf).channels@.contains_key(self.id),
            ok ==> final(intf).channels@.contains_key(self.id) && final(intf).channels@[self.id].queue@ == old(intf).channels@[self.id].queue@.push(data) && final(intf).channels@[self.id].rx_taken == old(intf).channels@[self.id].rx_taken,
            !ok ==> final(intf).channels@ == old(intf).channels@,
            forall|j: i64|
                j != self.id ==> old(intf).channels@.contains_key(j) == #[trigger] final(intf).channels@.contains_key(j),
            forall|j: i64|
                j != self.id && old(intf).channels@.contains_key(j) ==> old(intf).channels@[j]
                    == #[trigger] final(intf).channels@[j],
            final(intf).time == old(intf).time,
            final(intf).arena == old(intf).arena,
    {
        match intf.channels.remove(&self.id) {
            Some(pair) => {
                let mut queue = pair.queue;
                queue.push(data);
                intf.channels.insert(self.id, ChannelPairStorage { queue, rx_taken: pair.rx_taken });
                true
            },
            None => false,
        }
    }
}

impl MpscRx {
    /// Dequeue the oldest payload, or None when nothing is pending (or the
    /// registry was cleared). Delivery is FIFO.
    pub fn recv(&self, intf: &mut RSISInterface) -> (r: Option<data_buffer::DataBuffer>)
        ensures
            ({
                let present = old(intf).channels@.contains_key(self.id);
                let nonempty = present && old(intf).channels@[self.id].queue@.len() > 0;
                &&& (r is Some) == nonempty
                &&& nonempty ==> {
                    &&& r matches Some(d) && d == old(intf).channels@[self.id].queue@[0]
                    &&& final(intf).channels@.contains_key(self.id)
                    &&& final(intf).channels@[self.id].queue@ == old(intf).channels@[self.id].queue@.drop_first()
                    &&& final(intf).channels@[self.id].rx_taken == old(intf).channels@[self.id].rx_taken
                }
                &&& !nonempty ==> final(intf).channels@ == old(intf).channels@
            }),
            forall|j: i64|
                j != self.id ==> old(intf).channels@.contains_key(j) == #[trigger] final(intf).channels@.contains_key(j),
            forall|j: i64|
                j != self.id && old(intf).channels@.contains_key(j) ==> old(intf).channels@[j]
                    == #[trigger] final(intf).channels@[j],
            final(intf).time == old(intf).time,
            final(intf).arena == old(intf).arena,
    {
        match intf.channels.remove(&self.id) {
            Some(pair) => {
                if pair.queue.len() > 0 {
                    let mut queue = pair.queue;
                    let data = queue.remove(0);
                    intf.channels.insert(
                        self.id,
                        ChannelPairStorage { queue, rx_taken: pair.rx_taken },
                    );
                    proof {
                        assert(intf.channels@[self.id].queue@ =~= old(intf).channels@[self.id].queue@.drop_first());
                    }
                    Some(data)
                } else {
                    intf.channels.insert(self.id, pair);
                    None
                }
            },
            None => None,
        }
    }

    /// Non-blocking receive distinguishing an empty channel from a cleared
    /// registry.
    pub fn try_recv(&self, intf: &mut RSISInterface) -> (r: RecvStatus)
        ensures
            ({
                let present = old(intf).channels@.contains_key(self.id);
                let nonempty = present && old(intf).channels@[self.id].queue@.len() > 0;
                &&& nonempty ==> {
                    &&& r matches RecvStatus::Data(d) && d == old(intf).channels@[self.id].queue@[0]
                    &&& final(intf).channels@.contains_key(self.id)
                    &&& final(intf).channels@[self.id].queue@ == old(intf).channels@[self.id].queue@.drop_first()
                }
                &&& (present && !nonempty) ==> r is Empty && final(intf).channels@ == old(intf).channels@
                &&& !present ==> r is Disconnected && final(intf).channels@ == old(intf).channels@
            }),
            final(intf).time == old(intf).time,
            final(intf).arena == old(intf).arena,
    {
        if !intf.channels.contains_key(&self.id) {
            return RecvStatus::Disconnected;
        }
        match self.recv(intf) {
            Some(data) => RecvStatus::Data(data),
            None => RecvStatus::Empty,
        }
    }
}

} // verus!
