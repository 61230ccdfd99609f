use vstd::prelude::*;

use crate::error::StreamError;
use crate::frame::FrameBuffer;
use crate::tone::ToneGenerator;

verus! {

/// Who owns a slot's buffer.
#[derive(Debug, Clone, Copy, PartialEq, Eq, Structural)]
pub enum SlotState {
    /// Owned by the pool; nobody reads or writes it.
    Free,
    /// Handed to the synthesis path, which alone may write it.
    Pending,
    /// Submitted; the transport alone reads it.
    InFlight,
}

/// An operation on the pool, as seen by the ownership model.
#[derive(Debug, Clone, Copy, PartialEq, Eq, Structural)]
pub enum PoolOp {
    AcquireFree,
    Acquire(usize),
    Submit(usize),
    Release(usize),
    Stop,
}

/// Whether some slot is free.
pub open spec fn has_free(slots: Seq<SlotState>) -> bool {
    exists|i: int| 0 <= i < slots.len() && slots[i] == SlotState::Free
}

/// Whether `i` is the lowest free slot.
pub open spec fn lowest_free(slots: Seq<SlotState>, i: int) -> bool {
    &&& 0 <= i < slots.len()
    &&& slots[i] == SlotState::Free
    &&& forall|j: int| 0 <= j < i ==> slots[j] != SlotState::Free
}

/// The slot a unit result speaks of, so that every operation reports a slot.
pub open spec fn on_slot(r: Result<(), StreamError>, i: usize) -> Result<usize, StreamError> {
    match r {
        Ok(_) => Ok(i),
        Err(e) => Err(e),
    }
}

/// One step of the ownership model: from slot states `s` (accepting work
/// when `acc`), operation `op` gives result `r` and states `t` (accepting when
/// `acc2`). A slot is granted only while free and returns to the pool only
/// from flight; a refused operation changes nothing.
pub open spec fn pool_step(
    s: Seq<SlotState>,
    acc: bool,
    op: PoolOp,
    r: Result<usize, StreamError>,
    t: Seq<SlotState>,
    acc2: bool,
) -> bool {
    &&& t.len() == s.len()
    &&& r is Err ==> t == s
    &&& match op {
        PoolOp::AcquireFree => {
            &&& acc2 == acc
            &&& !acc ==> r == Err::<usize, StreamError>(StreamError::StreamStopped)
            &&& acc && !has_free(s) ==> r == Err::<usize, StreamError>(StreamError::PoolExhausted)
            &&& acc && has_free(s) ==> (r matches Ok(i) && lowest_free(s, i as int)
                && t == s.update(i as int, SlotState::Pending))
        },
        PoolOp::Acquire(i) => {
            &&& acc2 == acc
            &&& r is Ok <==> (acc && i < s.len() && s[i as int] == SlotState::Free)
            &&& r is Ok ==> r == Ok::<usize, StreamError>(i) && t == s.update(i as int, SlotState::Pending)
        },
        PoolOp::Submit(i) => {
            &&& acc2 == acc
            &&& r is Ok ==> (acc && i < s.len() && s[i as int] == SlotState::Pending
                && r == Ok::<usize, StreamError>(i) && t == s.update(i as int, SlotState::InFlight))
        },
        PoolOp::Release(i) => {
            &&& acc2 == acc
            &&& r is Ok <==> (i < s.len() && s[i as int] == SlotState::InFlight)
            &&& r is Ok ==> r == Ok::<usize, StreamError>(i) && t == s.update(i as int, SlotState::Free)
            &&& r is Err ==> r == Err::<usize, StreamError>(StreamError::InvalidSlotState)
        },
        PoolOp::Stop => t == s && !acc2 && r is Ok,
    }
}

/// A fixed set of frame buffers with the ownership state of each. Buffers are
/// written only while `Pending` and submitted only once fully written.
pub struct BufferPool {
    slots: Vec<SlotState>,
    buffers: Vec<FrameBuffer>,
    accepting: bool,
}

impl BufferPool {
    pub closed spec fn spec_slots(&self) -> Seq<SlotState> {
        self.slots@
    }

    pub closed spec fn spec_buffers(&self) -> Seq<FrameBuffer> {
        self.buffers@
    }

    pub closed spec fn spec_accepting(&self) -> bool {
        self.accepting
    }

    /// Every buffer shares the layout of the first.
    pub open spec fn same_layout(&self) -> bool {
        forall|i: int| 0 <= i < self.spec_buffers().len() ==> {
            let b = #[trigger] self.spec_buffers()[i];
            &&& b.wf()
            &&& b.spec_channels() == self.spec_buffers()[0].spec_channels()
            &&& b.spec_packets_per_frame() == self.spec_buffers()[0].spec_packets_per_frame()
            &&& b.spec_bytes_per_packet() == self.spec_buffers()[0].spec_bytes_per_packet()
            &&& b.spec_frame_capacity() == self.spec_buffers()[0].spec_frame_capacity()
        }
    }

    /// Every submitted buffer was fully written.
    pub open spec fn in_flight_written(&self) -> bool {
        forall|i: int| 0 <= i < self.spec_slots().len() && self.spec_slots()[i] == SlotState::InFlight
            ==> #[trigger] self.spec_buffers()[i].spec_packets_written()
                == self.spec_buffers()[i].spec_packets_per_frame()
    }

    pub open spec fn wf(&self) -> bool {
        &&& self.spec_slots().len() == self.spec_buffers().len()
        &&& self.spec_slots().len() >= 2
        &&& self.same_layout()
        &&& self.in_flight_written()
    }

    /// PCM frames each buffer holds.
    pub open spec fn spec_frame_len(&self) -> nat {
        self.spec_buffers()[0].spec_frame_capacity()
    }

    pub open spec fn spec_channels(&self) -> nat {
        self.spec_buffers()[0].spec_channels()
    }

    pub open spec fn spec_packets_per_frame(&self) -> nat {
        self.spec_buffers()[0].spec_packets_per_frame()
    }

    pub open spec fn spec_bytes_per_packet(&self) -> nat {
        self.spec_buffers()[0].spec_bytes_per_packet()
    }

    /// Whether `other` has the same slot count and buffer layout as `self`.
    pub open spec fn same_shape(&self, other: &BufferPool) -> bool {
        &&& self.spec_slots().len() == other.spec_slots().len()
        &&& self.spec_frame_len() == other.spec_frame_len()
        &&& self.spec_channels() == other.spec_channels()
        &&& self.spec_packets_per_frame() == other.spec_packets_per_frame()
        &&& self.spec_bytes_per_packet() == other.spec_bytes_per_packet()
    }

    /// A pool of `buffer_count` free, silent buffers of the given layout.
    pub fn new(buffer_count: usize, packets_per_frame: u32, bytes_per_packet: u32, channel_count: u32) -> (r: Result<BufferPool, StreamError>)
        ensures
            r is Ok <==> (buffer_count >= 2 && crate::frame::valid_layout(packets_per_frame as int,
                bytes_per_packet as int, channel_count as int)),
            r is Err ==> r == Err::<BufferPool, StreamError>(StreamError::InvalidConfig),
            r matches Ok(p) ==> p.wf() && p.spec_accepting()
                && p.spec_slots() == Seq::new(buffer_count as nat, |i: int| SlotState::Free)
                && p.spec_channels() == channel_count
                && p.spec_buffers()[0].spec_packets_per_frame() == packets_per_frame
                && p.spec_buffers()[0].spec_bytes_per_packet() == bytes_per_packet
                && forall|i: int| 0 <= i < buffer_count ==> {
                    let b = #[trigger] p.spec_buffers()[i];
                    &&& b.spec_packets_written() == 0
                    &&& b.spec_samples() == Seq::new(b.spec_samples().len(), |k: int| 0i16)
                },
    {
        if buffer_count < 2 {
            return Err(StreamError::InvalidConfig);
        }
        let first = FrameBuffer::new(packets_per_frame, bytes_per_packet, channel_count)?;
        let mut slots: Vec<SlotState> = Vec::new();
        let mut buffers: Vec<FrameBuffer> = Vec::new();
        let mut i: usize = 0;
        while i < buffer_count
            invariant
                i <= buffer_count,
                slots@.len() == i,
                buffers@.len() == i,
                first.wf(),
                first.spec_channels() == channel_count,
                first.spec_packets_per_frame() == packets_per_frame,
                first.spec_bytes_per_packet() == bytes_per_packet,
                first.spec_packets_written() == 0,
                forall|j: int| 0 <= j < i ==> slots@[j] == SlotState::Free,
                forall|j: int| 0 <= j < i ==> {
                    let b = #[trigger] buffers@[j];
                    &&& b.wf()
                    &&& b.spec_channels() == channel_count
                    &&& b.spec_packets_per_frame() == packets_per_frame
                    &&& b.spec_bytes_per_packet() == bytes_per_packet
                    &&& b.spec_frame_capacity() == first.spec_frame_capacity()
                    &&& b.spec_packets_written() == 0
                    &&& b.spec_samples() == Seq::new(b.spec_samples().len(), |k: int| 0i16)
                },
            decreases buffer_count - i,
        {
            let b = FrameBuffer::new(packets_per_frame, bytes_per_packet, channel_count)?;
            proof {
                assert(b.spec_samples().len() * 2 == first.spec_samples().len() * 2);
            }
            slots.push(SlotState::Free);
            buffers.push(b);
            i = i + 1;
        }
        let p = BufferPool { slots, buffers, accepting: true };
        assert(p.spec_slots() =~= Seq::new(buffer_count as nat, |i: int| SlotState::Free));
        Ok(p)
    }

    pub fn len(&self) -> (r: usize)
        ensures
            r == self.spec_slots().len(),
    {
        self.slots.len()
    }

    pub fn is_accepting(&self) -> (r: bool)
        ensures
            r == self.spec_accepting(),
    {
        self.accepting
    }

    /// State of slot `i`.
    pub fn state(&self, i: usize) -> (r: SlotState)
        requires
            i < self.spec_slots().len(),
        ensures
            r == self.spec_slots()[i as int],
    {
        self.slots[i]
    }

    /// Buffer of slot `i`.
    pub fn buffer(&self, i: usize) -> (r: &FrameBuffer)
        requires
            i < self.spec_buffers().len(),
        ensures
            *r == self.spec_buffers()[i as int],
    {
        &self.buffers[i]
    }

    /// PCM frames each buffer holds.
    pub fn frame_len(&self) -> (r: usize)
        requires
            self.wf(),
        ensures
            r == self.spec_frame_len(),
    {
        self.buffers[0].frame_capacity()
    }

    /// Hands the lowest free slot to the caller, who alone may then write it.
    pub fn acquire_free(&mut self) -> (r: Result<usize, StreamError>)
        requires
            old(self).wf(),
        ensures
            final(self).wf(),
            pool_step(old(self).spec_slots(), old(self).spec_accepting(), PoolOp::AcquireFree, r,
                final(self).spec_slots(), final(self).spec_accepting()),
            r is Err ==> *final(self) == *old(self),
            final(self).same_shape(old(self)),
            r matches Ok(i) ==> i < old(self).spec_slots().len()
                && final(self).spec_buffers() == old(self).spec_buffers().update(i as int,
                    final(self).spec_buffers()[i as int])
                && final(self).spec_buffers()[i as int].spec_samples()
                    == old(self).spec_buffers()[i as int].spec_samples(),
    {
        if !self.accepting {
            return Err(StreamError::StreamStopped);
        }
        let mut i: usize = 0;
        while i < self.slots.len()
            invariant
                self.wf(),
                *self == *old(self),
                self.accepting,
                i <= self.slots@.len(),
                forall|j: int| 0 <= j < i ==> self.slots@[j] != SlotState::Free,
            decreases self.slots@.len() - i,
        {
            if self.slots[i] == SlotState::Free {
                return self.acquire(i);
            }
            i = i + 1;
        }
        Err(StreamError::PoolExhausted)
    }

    /// Hands free slot `i` to the caller, who alone may then write it; its
    /// buffer counts as unwritten until the next complete write.
    pub fn acquire(&mut self, i: usize) -> (r: Result<usize, StreamError>)
        requires
            old(self).wf(),
        ensures
            final(self).wf(),
            pool_step(old(self).spec_slots(), old(self).spec_accepting(), PoolOp::Acquire(i), r,
                final(self).spec_slots(), final(self).spec_accepting()),
            !old(self).spec_accepting() ==> r == Err::<usize, StreamError>(StreamError::StreamStopped),
            old(self).spec_accepting() && r is Err ==> r == Err::<usize, StreamError>(StreamError::InvalidSlotState),
            final(self).same_shape(old(self)),
            r is Err ==> *final(self) == *old(self),
            r is Ok ==> final(self).spec_buffers() == old(self).spec_buffers().update(i as int,
                    final(self).spec_buffers()[i as int])
                && final(self).spec_buffers()[i as int].spec_samples()
                    == old(self).spec_buffers()[i as int].spec_samples(),
    {
        if !self.accepting {
            return Err(StreamError::StreamStopped);
        }
        if i >= self.slots.len() || self.slots[i] != SlotState::Free {
            return Err(StreamError::InvalidSlotState);
        }
        self.slots.set(i, SlotState::Pending);
        self.buffers[i].clear_written();
        proof {
            assert forall|j: int| 0 <= j < self.spec_buffers().len() implies {
                let b = #[trigger] self.spec_buffers()[j];
                &&& b.wf()
                &&& b.spec_channels() == self.spec_buffers()[0].spec_channels()
                &&& b.spec_packets_per_frame() == self.spec_buffers()[0].spec_packets_per_frame()
                &&& b.spec_bytes_per_packet() == self.spec_buffers()[0].spec_bytes_per_packet()
                &&& b.spec_frame_capacity() == self.spec_buffers()[0].spec_frame_capacity()
            } by {
                assert(old(self).spec_buffers()[j].wf());
                assert(old(self).spec_buffers()[0].wf());
            }
        }
        Ok(i)
    }

    /// Writes a full frame of the tone, starting at frame index `start`, into
    /// the buffer of pending slot `i`.
    pub fn write_slot(&mut self, i: usize, g: &ToneGenerator, start: u64) -> (r: Result<(), StreamError>)
        requires
            old(self).wf(),
            g.wf(),
        ensures
            final(self).wf(),
            final(self).spec_slots() == old(self).spec_slots(),
            final(self).spec_accepting() == old(self).spec_accepting(),
            final(self).same_shape(old(self)),
            r is Ok <==> (i < old(self).spec_slots().len() && old(self).spec_slots()[i as int] == SlotState::Pending
                && start + old(self).spec_frame_len() <= u64::MAX),
            r is Err ==> *final(self) == *old(self),
            !(i < old(self).spec_slots().len() && old(self).spec_slots()[i as int] == SlotState::Pending)
                ==> r == Err::<(), StreamError>(StreamError::InvalidSlotState),
            (i < old(self).spec_slots().len() && old(self).spec_slots()[i as int] == SlotState::Pending
                && start + old(self).spec_frame_len() > u64::MAX)
                ==> r == Err::<(), StreamError>(StreamError::ClockOverflow),
            r is Ok ==> final(self).spec_buffers() == old(self).spec_buffers().update(i as int,
                    final(self).spec_buffers()[i as int])
                && final(self).spec_buffers()[i as int].spec_samples() == crate::frame::frame_samples(*g,
                    start as int, old(self).spec_frame_len() as int, old(self).spec_channels() as int)
                && final(self).spec_buffers()[i as int].spec_packets_written()
                    == final(self).spec_buffers()[i as int].spec_packets_per_frame(),
    {
        if i >= self.slots.len() || self.slots[i] != SlotState::Pending {
            return Err(StreamError::InvalidSlotState);
        }
        let n = self.buffers[0].frame_capacity();
        if start > u64::MAX - n as u64 {
            return Err(StreamError::ClockOverflow);
        }
        proof {
            assert(old(self).spec_buffers()[i as int].wf());
        }
        let r = self.buffers[i].write(g, start, n);
        proof {
            assert forall|j: int| 0 <= j < self.spec_buffers().len() implies {
                let b = #[trigger] self.spec_buffers()[j];
                &&& b.wf()
                &&& b.spec_channels() == self.spec_buffers()[0].spec_channels()
                &&& b.spec_packets_per_frame() == self.spec_buffers()[0].spec_packets_per_frame()
                &&& b.spec_bytes_per_packet() == self.spec_buffers()[0].spec_bytes_per_packet()
                &&& b.spec_frame_capacity() == self.spec_buffers()[0].spec_frame_capacity()
            } by {
                assert(old(self).spec_buffers()[j].wf());
                assert(old(self).spec_buffers()[0].wf());
            }
        }
        r
    }

    /// Hands pending slot `i`, fully written, to the transport.
    pub fn submit(&mut self, i: usize) -> (r: Result<(), StreamError>)
        requires
            old(self).wf(),
        ensures
            final(self).wf(),
            pool_step(old(self).spec_slots(), old(self).spec_accepting(), PoolOp::Submit(i), on_slot(r, i),
                final(self).spec_slots(), final(self).spec_accepting()),
            final(self).spec_buffers() == old(self).spec_buffers(),
            final(self).same_shape(old(self)),
            r is Ok <==> (old(self).spec_accepting() && i < old(self).spec_slots().len()
                && old(self).spec_slots()[i as int] == SlotState::Pending
                && old(self).spec_buffers()[i as int].spec_packets_written()
                    == old(self).spec_buffers()[i as int].spec_packets_per_frame()),
            !old(self).spec_accepting() ==> r == Err::<(), StreamError>(StreamError::StreamStopped),
            old(self).spec_accepting() && !(i < old(self).spec_slots().len()
                && old(self).spec_slots()[i as int] == SlotState::Pending)
                ==> r == Err::<(), StreamError>(StreamError::InvalidSlotState),
            old(self).spec_accepting() && i < old(self).spec_slots().len()
                && old(self).spec_slots()[i as int] == SlotState::Pending
                && old(self).spec_buffers()[i as int].spec_packets_written()
                    != old(self).spec_buffers()[i as int].spec_packets_per_frame()
                ==> r == Err::<(), StreamError>(StreamError::PartialFrameWrite),
            r is Err ==> *final(self) == *old(self),
    {
        if !self.accepting {
            return Err(StreamError::StreamStopped);
        }
        if i >= self.slots.len() || self.slots[i] != SlotState::Pending {
            return Err(StreamError::InvalidSlotState);
        }
        if !self.buffers[i].is_complete() {
            return Err(StreamError::PartialFrameWrite);
        }
        self.slots.set(i, SlotState::InFlight);
        Ok(())
    }

    /// Returns in-flight slot `i` to the pool; any other slot is refused.
    pub fn release(&mut self, i: usize) -> (r: Result<(), StreamError>)
        requires
            old(self).wf(),
        ensures
            final(self).wf(),
            pool_step(old(self).spec_slots(), old(self).spec_accepting(), PoolOp::Release(i), on_slot(r, i),
                final(self).spec_slots(), final(self).spec_accepting()),
            final(self).spec_buffers() == old(self).spec_buffers(),
            final(self).same_shape(old(self)),
            r is Ok <==> (i < old(self).spec_slots().len() && old(self).spec_slots()[i as int] == SlotState::InFlight),
            r is Err ==> r == Err::<(), StreamError>(StreamError::InvalidSlotState) && *final(self) == *old(self),
    {
        if i >= self.slots.len() || self.slots[i] != SlotState::InFlight {
            return Err(StreamError::InvalidSlotState);
        }
        self.slots.set(i, SlotState::Free);
        Ok(())
    }

    /// Stops accepting work and lists, in increasing order, the slots still in
    /// flight, which the transport must cancel.
    pub fn stop(&mut self) -> (r: Vec<usize>)
        requires
            old(self).wf(),
        ensures
            final(self).wf(),
            pool_step(old(self).spec_slots(), old(self).spec_accepting(), PoolOp::Stop, Ok(0),
                final(self).spec_slots(), final(self).spec_accepting()),
            final(self).spec_buffers() == old(self).spec_buffers(),
            final(self).same_shape(old(self)),
            forall|i: int| 0 <= i < old(self).spec_slots().len()
                && old(self).spec_slots()[i] == SlotState::InFlight ==> r@.contains(i as usize),
            forall|k: int| 0 <= k < r@.len() ==> r@[k] < old(self).spec_slots().len()
                && old(self).spec_slots()[r@[k] as int] == SlotState::InFlight,
            forall|j: int, k: int| 0 <= j < k < r@.len() ==> r@[j] < r@[k],
    {
        self.accepting = false;
        let mut r: Vec<usize> = Vec::new();
        let mut i: usize = 0;
        while i < self.slots.len()
            invariant
                self.wf(),
                self.slots@ == old(self).slots@,
                self.buffers@ == old(self).buffers@,
                !self.accepting,
                i <= self.slots@.len(),
                forall|j: int| 0 <= j < i && self.slots@[j] == SlotState::InFlight ==> r@.contains(j as usize),
                forall|k: int| 0 <= k < r@.len() ==> r@[k] < i && self.slots@[r@[k] as int] == SlotState::InFlight,
                forall|j: int, k: int| 0 <= j < k < r@.len() ==> r@[j] < r@[k],
            decreases self.slots@.len() - i,
        {
            if self.slots[i] == SlotState::InFlight {
                let ghost r0 = r@;
                r.push(i);
                proof {
                    assert(r@[r@.len() - 1] == i);
                    assert forall|j: int| 0 <= j < i && self.slots@[j] == SlotState::InFlight
                        implies r@.contains(j as usize) by {
                        let k = choose|k: int| 0 <= k < r0.len() && r0[k] == j as usize;
                        assert(r@[k] == j);
                    }
                }
            }
            i = i + 1;
        }
        r
    }
}

/// Whether `states`, `accs` (accepting or not), `ops` and `results` record a
/// run of the pool: each operation takes the state before it to the one after.
pub open spec fn valid_trace(
    states: Seq<Seq<SlotState>>,
    accs: Seq<bool>,
    ops: Seq<PoolOp>,
    results: Seq<Result<usize, StreamError>>,
) -> bool {
    &&& states.len() == ops.len() + 1
    &&& accs.len() == ops.len() + 1
    &&& results.len() == ops.len()
    &&& forall|k: int| 0 <= k < ops.len() ==> #[trigger] pool_step(states[k], accs[k], ops[k], results[k],
        states[k + 1], accs[k + 1])
}

/// Whether operation `op` with result `r` handed slot `i` to a caller.
pub open spec fn grants(op: PoolOp, r: Result<usize, StreamError>, i: usize) -> bool {
    (op is AcquireFree || op is Acquire) && r == Ok::<usize, StreamError>(i)
}

/// Whether operation `op` with result `r` returned slot `i` to the pool.
pub open spec fn releases(op: PoolOp, r: Result<usize, StreamError>, i: usize) -> bool {
    op == PoolOp::Release(i) && r is Ok
}

proof fn lemma_held_until_released(
    states: Seq<Seq<SlotState>>,
    accs: Seq<bool>,
    ops: Seq<PoolOp>,
    results: Seq<Result<usize, StreamError>>,
    a: int,
    k: int,
    i: usize,
)
    requires
        valid_trace(states, accs, ops, results),
        0 <= a < k <= ops.len(),
        i < states[a + 1].len(),
        states[a + 1][i as int] != SlotState::Free,
        forall|m: int| a < m < k ==> !releases(ops[m], results[m], i),
    ensures
        states[k].len() == states[a + 1].len(),
        states[k][i as int] != SlotState::Free,
    decreases k - a,
{
    if k > a + 1 {
        lemma_held_until_released(states, accs, ops, results, a, k - 1, i);
        let m = k - 1;
        assert(pool_step(states[m], accs[m], ops[m], results[m], states[m + 1], accs[m + 1]));
        assert(!releases(ops[m], results[m], i));
    }
}

/// Exclusive ownership: once a slot is handed to a caller, no operation hands
/// it out again until a successful release has returned it to the pool; two
/// holders of one slot never coexist.
pub proof fn lemma_no_double_grant(
    states: Seq<Seq<SlotState>>,
    accs: Seq<bool>,
    ops: Seq<PoolOp>,
    results: Seq<Result<usize, StreamError>>,
    a: int,
    b: int,
    i: usize,
)
    requires
        valid_trace(states, accs, ops, results),
        0 <= a < b < ops.len(),
        grants(ops[a], results[a], i),
        grants(ops[b], results[b], i),
    ensures
        exists|m: int| a < m < b && releases(ops[m], results[m], i),
{
    assert(pool_step(states[a], accs[a], ops[a], results[a], states[a + 1], accs[a + 1]));
    assert(pool_step(states[b], accs[b], ops[b], results[b], states[b + 1], accs[b + 1]));
    if !(exists|m: int| a < m < b && releases(ops[m], results[m], i)) {
        assert(states[a + 1][i as int] == SlotState::Pending);
        lemma_held_until_released(states, accs, ops, results, a, b, i);
    }
}

/// Releasing a free slot always fails with `InvalidSlotState`.
pub proof fn lemma_release_free_fails(
    s: Seq<SlotState>,
    acc: bool,
    i: usize,
    r: Result<usize, StreamError>,
    t: Seq<SlotState>,
    acc2: bool,
)
    requires
        pool_step(s, acc, PoolOp::Release(i), r, t, acc2),
        i < s.len(),
        s[i as int] == SlotState::Free,
    ensures
        r == Err::<usize, StreamError>(StreamError::InvalidSlotState),
        t == s,
{
}

/// Slot states after `k` acquisitions from a pool of `n` free slots.
pub open spec fn after_acquires(n: nat, k: int) -> Seq<SlotState> {
    Seq::new(n, |j: int| if j < k { SlotState::Pending } else { SlotState::Free })
}

proof fn lemma_acquires_in_order(
    states: Seq<Seq<SlotState>>,
    accs: Seq<bool>,
    ops: Seq<PoolOp>,
    results: Seq<Result<usize, StreamError>>,
    k: int,
)
    requires
        valid_trace(states, accs, ops, results),
        states[0] == after_acquires(states[0].len(), 0),
        accs[0],
        forall|m: int| 0 <= m < ops.len() ==> ops[m] == PoolOp::AcquireFree,
        0 <= k <= ops.len(),
        k <= states[0].len(),
    ensures
        states[k] == after_acquires(states[0].len(), k),
        accs[k],
        forall|m: int| 0 <= m < k ==> results[m] == Ok::<usize, StreamError>(m as usize),
    decreases k,
{
    let n = states[0].len();
    if k > 0 {
        lemma_acquires_in_order(states, accs, ops, results, k - 1);
        let m = k - 1;
        let s = states[m];
        assert(pool_step(s, accs[m], ops[m], results[m], states[m + 1], accs[m + 1]));
        assert(s[m] == SlotState::Free);
        assert(has_free(s));
        let j = results[m]->Ok_0;
        assert(lowest_free(s, j as int));
        if (j as int) > m {
            assert(s[m] != SlotState::Free);
        }
        assert(j as int == m);
        assert(states[k] =~= after_acquires(n, k));
    }
}

/// Exhaustion: from a pool of `n` free slots that accepts work, `n`
/// acquisitions in a row hand out slots `0..n` in order, and the next one
/// fails with `PoolExhausted`.
pub proof fn lemma_exhaustion(
    states: Seq<Seq<SlotState>>,
    accs: Seq<bool>,
    ops: Seq<PoolOp>,
    results: Seq<Result<usize, StreamError>>,
)
    requires
        valid_trace(states, accs, ops, results),
        states[0] == Seq::new(states[0].len(), |i: int| SlotState::Free),
        accs[0],
        ops.len() == states[0].len() + 1,
        forall|m: int| 0 <= m < ops.len() ==> ops[m] == PoolOp::AcquireFree,
    ensures
        forall|m: int| 0 <= m < states[0].len() ==> results[m] == Ok::<usize, StreamError>(m as usize),
        results[states[0].len() as int] == Err::<usize, StreamError>(StreamError::PoolExhausted),
{
    let n = states[0].len();
    assert(states[0] =~= after_acquires(n, 0));
    lemma_acquires_in_order(states, accs, ops, results, n as int);
    let s = states[n as int];
    assert(pool_step(s, accs[n as int], ops[n as int], results[n as int], states[(n + 1) as int], accs[(n + 1) as int]));
    assert(!has_free(s));
}

} // verus!
