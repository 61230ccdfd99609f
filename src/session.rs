use vstd::prelude::*;
use vstd::arithmetic::div_mod::lemma_fundamental_div_mod_converse;

use crate::error::StreamError;
use crate::frame::{frame_samples, valid_layout, FrameBuffer};
use crate::pool::{has_free, lowest_free, BufferPool, SlotState};
use crate::scheduler::StreamScheduler;
use crate::tone::{valid_period, ToneGenerator, MAX_PEAK};

verus! {

/// How the transport says a submitted transfer ended.
#[derive(Debug, Clone, Copy, PartialEq, Eq, Structural)]
pub enum TransferStatus {
    Completed,
    Failed,
    Cancelled,
}

/// What the transport is to do with a slot after a completion was handled.
#[derive(Debug, Clone, Copy, PartialEq, Eq, Structural)]
pub enum Completion {
    /// The slot holds the next frame: submit it again.
    Resubmit,
    /// The slot went back to the pool during teardown.
    Retired,
}

/// Life cycle of a stream.
#[derive(Debug, Clone, Copy, PartialEq, Eq, Structural)]
pub enum Phase {
    Running,
    Stopping,
    Stopped,
}

/// Everything fixed when a stream starts.
#[derive(Debug, Clone, Copy, PartialEq, Eq, Structural)]
pub struct StreamConfig {
    pub frequency: u32,
    pub sample_rate: u32,
    pub channel_count: u32,
    pub peak_amplitude: u16,
    pub packets_per_frame: u32,
    pub bytes_per_packet: u32,
    pub buffer_count: usize,
}

/// Whether every field of `c` lies in its recognised range.
pub open spec fn valid_config(c: StreamConfig) -> bool {
    &&& c.sample_rate >= 1
    &&& c.peak_amplitude <= MAX_PEAK
    &&& c.buffer_count >= 2
    &&& valid_layout(c.packets_per_frame as int, c.bytes_per_packet as int, c.channel_count as int)
}

/// PCM frames in one buffer of configuration `c`.
pub open spec fn config_frame_len(c: StreamConfig) -> int {
    (c.packets_per_frame * c.bytes_per_packet) / (2 * c.channel_count)
}

/// Whether no slot is in flight.
pub open spec fn none_in_flight(slots: Seq<SlotState>) -> bool {
    forall|i: int| 0 <= i < slots.len() ==> slots[i] != SlotState::InFlight
}

/// A streaming session: the pool, the sample clock, and the stream's phase.
/// Every completion the transport reports passes through `on_completion`.
pub struct Session {
    pool: BufferPool,
    scheduler: StreamScheduler,
    phase: Phase,
}

impl Session {
    pub closed spec fn spec_pool(&self) -> BufferPool {
        self.pool
    }

    pub closed spec fn spec_scheduler(&self) -> StreamScheduler {
        self.scheduler
    }

    pub closed spec fn spec_phase(&self) -> Phase {
        self.phase
    }

    pub open spec fn spec_slots(&self) -> Seq<SlotState> {
        self.spec_pool().spec_slots()
    }

    /// The scheduler serves the pool, the pool accepts work exactly while the
    /// stream runs, and no slot is ever left half-way between owners.
    pub open spec fn wf(&self) -> bool {
        &&& self.spec_scheduler().wf()
        &&& self.spec_scheduler().serves(&self.spec_pool())
        &&& (self.spec_phase() == Phase::Running <==> self.spec_pool().spec_accepting())
        &&& forall|i: int| 0 <= i < self.spec_slots().len() ==> self.spec_slots()[i] != SlotState::Pending
        &&& self.spec_phase() == Phase::Stopped ==> none_in_flight(self.spec_slots())
    }

    /// Builds the pool and the tone, and fills every buffer in turn from frame
    /// index zero; every slot is then in flight, ready for submission.
    pub fn start(config: StreamConfig, period: Vec<i16>) -> (r: Result<Session, StreamError>)
        ensures
            r is Ok <==> (valid_config(config)
                && valid_period(period@, config.sample_rate as int, config.peak_amplitude as int)
                && config.buffer_count * config_frame_len(config) <= u64::MAX),
            !valid_config(config) || !valid_period(period@, config.sample_rate as int, config.peak_amplitude as int)
                ==> r == Err::<Session, StreamError>(StreamError::InvalidConfig),
            valid_config(config) && valid_period(period@, config.sample_rate as int, config.peak_amplitude as int)
                && config.buffer_count * config_frame_len(config) > u64::MAX
                ==> r == Err::<Session, StreamError>(StreamError::ClockOverflow),
            r matches Ok(s) ==> {
                &&& s.wf()
                &&& s.spec_phase() == Phase::Running
                &&& s.spec_slots() == Seq::new(config.buffer_count as nat, |i: int| SlotState::InFlight)
                &&& s.spec_pool().spec_frame_len() == config_frame_len(config)
                &&& s.spec_scheduler().spec_clock() == config.buffer_count * config_frame_len(config)
                &&& s.spec_scheduler().spec_generator().spec_frequency() == config.frequency
                &&& s.spec_scheduler().spec_generator().spec_sample_rate() == config.sample_rate
                &&& s.spec_scheduler().spec_generator().spec_period() == period@
                &&& s.spec_scheduler().spec_generator().spec_peak() == config.peak_amplitude
                &&& s.spec_scheduler().spec_channels() == config.channel_count
                &&& s.spec_pool().spec_packets_per_frame() == config.packets_per_frame
                &&& s.spec_pool().spec_bytes_per_packet() == config.bytes_per_packet
                &&& forall|i: int| 0 <= i < config.buffer_count ==>
                    #[trigger] s.spec_pool().spec_buffers()[i].spec_samples() == frame_samples(
                        s.spec_scheduler().spec_generator(), i * config_frame_len(config),
                        config_frame_len(config), config.channel_count as int)
            },
    {
        let generator = ToneGenerator::new(config.frequency, config.sample_rate, config.peak_amplitude, period)?;
        let mut pool = BufferPool::new(config.buffer_count, config.packets_per_frame, config.bytes_per_packet,
            config.channel_count)?;
        let mut scheduler = StreamScheduler::new(generator, config.channel_count);
        proof {
            let b = pool.spec_buffers()[0];
            assert(b.wf());
            let bytes = config.packets_per_frame * config.bytes_per_packet;
            assert(b.spec_samples().len() * 2 == bytes);
            assert(b.spec_samples().len() == b.spec_frame_capacity() * config.channel_count);
            let l = b.spec_frame_capacity() as int;
            let ch = config.channel_count as int;
            assert(bytes as int == l * (2 * ch)) by (nonlinear_arith)
                requires
                    b.spec_samples().len() * 2 == bytes,
                    b.spec_samples().len() == l * ch,
            ;
            lemma_fundamental_div_mod_converse(bytes as int, 2 * ch, l, 0);
        }
        scheduler.prime_all(&mut pool)?;
        Ok(Session { pool, scheduler, phase: Phase::Running })
    }

    pub fn phase(&self) -> (r: Phase)
        ensures
            r == self.spec_phase(),
    {
        self.phase
    }

    pub fn slot_count(&self) -> (r: usize)
        ensures
            r == self.spec_slots().len(),
    {
        self.pool.len()
    }

    pub fn slot_state(&self, i: usize) -> (r: SlotState)
        requires
            i < self.spec_slots().len(),
        ensures
            r == self.spec_slots()[i as int],
    {
        self.pool.state(i)
    }

    /// The buffer of slot `i`, for the transport to submit.
    pub fn buffer(&self, i: usize) -> (r: &FrameBuffer)
        requires
            i < self.spec_slots().len(),
            self.wf(),
        ensures
            *r == self.spec_pool().spec_buffers()[i as int],
    {
        self.pool.buffer(i)
    }

    /// PCM frames generated since the stream started.
    pub fn clock(&self) -> (r: u64)
        ensures
            r == self.spec_scheduler().spec_clock(),
    {
        self.scheduler.clock()
    }

    /// Takes the lowest free slot, fills it with the next frame and hands it
    /// to the transport, while the stream runs.
    pub fn acquire_free(&mut self) -> (r: Result<usize, StreamError>)
        requires
            old(self).wf(),
        ensures
            final(self).wf(),
            final(self).spec_phase() == old(self).spec_phase(),
            old(self).spec_phase() != Phase::Running ==> r == Err::<usize, StreamError>(StreamError::StreamStopped),
            old(self).spec_phase() == Phase::Running && !has_free(old(self).spec_slots())
                ==> r == Err::<usize, StreamError>(StreamError::PoolExhausted),
            old(self).spec_phase() == Phase::Running && has_free(old(self).spec_slots())
                && old(self).spec_scheduler().spec_clock() + old(self).spec_pool().spec_frame_len() > u64::MAX
                ==> r == Err::<usize, StreamError>(StreamError::ClockOverflow),
            r is Ok <==> (old(self).spec_phase() == Phase::Running && has_free(old(self).spec_slots())
                && old(self).spec_scheduler().spec_clock() + old(self).spec_pool().spec_frame_len() <= u64::MAX),
            r is Err ==> *final(self) == *old(self),
            final(self).spec_pool().same_shape(&old(self).spec_pool()),
            final(self).spec_scheduler().spec_generator() == old(self).spec_scheduler().spec_generator(),
            final(self).spec_scheduler().spec_channels() == old(self).spec_scheduler().spec_channels(),
            r matches Ok(i) ==> lowest_free(old(self).spec_slots(), i as int)
                && final(self).spec_slots() == old(self).spec_slots().update(i as int, SlotState::InFlight)
                && final(self).spec_pool().spec_buffers() == old(self).spec_pool().spec_buffers().update(i as int,
                    final(self).spec_pool().spec_buffers()[i as int])
                && final(self).spec_scheduler().spec_clock()
                    == old(self).spec_scheduler().spec_clock() + old(self).spec_pool().spec_frame_len()
                && final(self).spec_pool().spec_buffers()[i as int].spec_samples() == frame_samples(
                    old(self).spec_scheduler().spec_generator(), old(self).spec_scheduler().spec_clock() as int,
                    old(self).spec_pool().spec_frame_len() as int, old(self).spec_scheduler().spec_channels() as int),
    {
        if self.phase != Phase::Running {
            return Err(StreamError::StreamStopped);
        }
        let n = self.pool.len();
        let mut i: usize = 0;
        while i < n
            invariant
                *self == *old(self),
                self.wf(),
                self.phase == Phase::Running,
                n == self.spec_slots().len(),
                i <= n,
                forall|j: int| 0 <= j < i ==> self.spec_slots()[j] != SlotState::Free,
            decreases n - i,
        {
            if self.pool.state(i) == SlotState::Free {
                self.scheduler.refill(&mut self.pool, i)?;
                return Ok(i);
            }
            i = i + 1;
        }
        Err(StreamError::PoolExhausted)
    }

    /// Handles the end of the transfer of `slot`. While running, a completed
    /// transfer returns the slot to the pool, refills it with the next frame
    /// and asks for resubmission; a failed or cancelled one returns the slot to
    /// the pool unfilled and reports `TransferFailed`, leaving the choice of
    /// `resubmit` or `stop` to the owner. While stopping, every completion
    /// retires its slot. A slot not in flight is refused, and a stopped
    /// stream accepts nothing.
    pub fn on_completion(&mut self, slot: usize, status: TransferStatus) -> (r: Result<Completion, StreamError>)
        requires
            old(self).wf(),
        ensures
            final(self).wf(),
            final(self).spec_phase() == old(self).spec_phase(),
            final(self).spec_pool().same_shape(&old(self).spec_pool()),
            final(self).spec_scheduler().spec_generator() == old(self).spec_scheduler().spec_generator(),
            final(self).spec_scheduler().spec_channels() == old(self).spec_scheduler().spec_channels(),
            old(self).spec_phase() == Phase::Stopped ==> r == Err::<Completion, StreamError>(StreamError::StreamStopped)
                && *final(self) == *old(self),
            old(self).spec_phase() != Phase::Stopped && !(slot < old(self).spec_slots().len()
                && old(self).spec_slots()[slot as int] == SlotState::InFlight)
                ==> r == Err::<Completion, StreamError>(StreamError::InvalidSlotState) && *final(self) == *old(self),
            old(self).spec_phase() != Phase::Stopped && slot < old(self).spec_slots().len()
                && old(self).spec_slots()[slot as int] == SlotState::InFlight ==> {
                match (old(self).spec_phase(), status) {
                    (Phase::Running, TransferStatus::Completed) => {
                        let len = old(self).spec_pool().spec_frame_len();
                        let clock = old(self).spec_scheduler().spec_clock();
                        &&& clock + len <= u64::MAX ==> r == Ok::<Completion, StreamError>(Completion::Resubmit)
                            && final(self).spec_slots() == old(self).spec_slots()
                            && final(self).spec_scheduler().spec_clock() == clock + len
                            && final(self).spec_pool().spec_buffers() == old(self).spec_pool().spec_buffers().update(
                                slot as int, final(self).spec_pool().spec_buffers()[slot as int])
                            && final(self).spec_pool().spec_buffers()[slot as int].spec_samples()
                                == old(self).spec_scheduler().next_frame(len)
                        &&& clock + len > u64::MAX ==> r == Err::<Completion, StreamError>(StreamError::ClockOverflow)
                            && final(self).spec_slots() == old(self).spec_slots().update(slot as int, SlotState::Free)
                            && final(self).spec_scheduler() == old(self).spec_scheduler()
                            && final(self).spec_pool().spec_buffers() == old(self).spec_pool().spec_buffers()
                    },
                    (Phase::Running, _) => {
                        &&& r == Err::<Completion, StreamError>(StreamError::TransferFailed)
                        &&& final(self).spec_slots() == old(self).spec_slots().update(slot as int, SlotState::Free)
                        &&& final(self).spec_scheduler() == old(self).spec_scheduler()
                        &&& final(self).spec_pool().spec_buffers() == old(self).spec_pool().spec_buffers()
                    },
                    _ => {
                        &&& r == Ok::<Completion, StreamError>(Completion::Retired)
                        &&& final(self).spec_slots() == old(self).spec_slots().update(slot as int, SlotState::Free)
                        &&& final(self).spec_scheduler() == old(self).spec_scheduler()
                        &&& final(self).spec_pool().spec_buffers() == old(self).spec_pool().spec_buffers()
                    },
                }
            },
    {
        if self.phase == Phase::Stopped {
            return Err(StreamError::StreamStopped);
        }
        if slot >= self.pool.len() || self.pool.state(slot) != SlotState::InFlight {
            return Err(StreamError::InvalidSlotState);
        }
        let released = self.pool.release(slot);
        assert(released is Ok);
        if self.phase == Phase::Stopping {
            return Ok(Completion::Retired);
        }
        match status {
            TransferStatus::Completed => {
                let refilled = self.scheduler.refill(&mut self.pool, slot);
                match refilled {
                    Ok(()) => {
                        assert(self.pool.spec_slots() =~= old(self).pool.spec_slots());
                        Ok(Completion::Resubmit)
                    },
                    Err(e) => Err(e),
                }
            },
            _ => Err(StreamError::TransferFailed),
        }
    }

    /// Fills free slot `slot` with the next frame and hands it to the
    /// transport: the owner's retry after a failed transfer.
    pub fn resubmit(&mut self, slot: usize) -> (r: Result<(), StreamError>)
        requires
            old(self).wf(),
        ensures
            final(self).wf(),
            final(self).spec_phase() == old(self).spec_phase(),
            r is Ok <==> (old(self).spec_phase() == Phase::Running && slot < old(self).spec_slots().len()
                && old(self).spec_slots()[slot as int] == SlotState::Free
                && old(self).spec_scheduler().spec_clock() + old(self).spec_pool().spec_frame_len() <= u64::MAX),
            r is Err ==> *final(self) == *old(self),
            final(self).spec_pool().same_shape(&old(self).spec_pool()),
            final(self).spec_scheduler().spec_generator() == old(self).spec_scheduler().spec_generator(),
            final(self).spec_scheduler().spec_channels() == old(self).spec_scheduler().spec_channels(),
            r is Ok ==> final(self).spec_slots() == old(self).spec_slots().update(slot as int, SlotState::InFlight)
                && final(self).spec_scheduler().spec_clock()
                    == old(self).spec_scheduler().spec_clock() + old(self).spec_pool().spec_frame_len()
                && final(self).spec_pool().spec_buffers() == old(self).spec_pool().spec_buffers().update(slot as int,
                    final(self).spec_pool().spec_buffers()[slot as int])
                && final(self).spec_pool().spec_buffers()[slot as int].spec_samples()
                    == old(self).spec_scheduler().next_frame(old(self).spec_pool().spec_frame_len()),
    {
        self.scheduler.refill(&mut self.pool, slot)
    }

    /// Begins teardown: the stream accepts no more work, and the slots still
    /// in flight, which the transport must cancel, are listed in increasing
    /// order.
    pub fn stop(&mut self) -> (r: Vec<usize>)
        requires
            old(self).wf(),
        ensures
            final(self).wf(),
            final(self).spec_slots() == old(self).spec_slots(),
            final(self).spec_pool().spec_buffers() == old(self).spec_pool().spec_buffers(),
            final(self).spec_pool().same_shape(&old(self).spec_pool()),
            final(self).spec_scheduler() == old(self).spec_scheduler(),
            final(self).spec_phase() == (if old(self).spec_phase() == Phase::Stopped { Phase::Stopped } else {
                Phase::Stopping
            }),
            forall|i: int| 0 <= i < old(self).spec_slots().len()
                && old(self).spec_slots()[i] == SlotState::InFlight ==> r@.contains(i as usize),
            forall|k: int| 0 <= k < r@.len() ==> r@[k] < old(self).spec_slots().len()
                && old(self).spec_slots()[r@[k] as int] == SlotState::InFlight,
            forall|j: int, k: int| 0 <= j < k < r@.len() ==> r@[j] < r@[k],
    {
        let r = self.pool.stop();
        if self.phase == Phase::Running {
            self.phase = Phase::Stopping;
        }
        r
    }

    /// Ends teardown once the transport has acknowledged every cancellation;
    /// refused, with nothing changed, while a slot is still in flight.
    pub fn finish_stop(&mut self) -> (r: Result<(), StreamError>)
        requires
            old(self).wf(),
        ensures
            final(self).wf(),
            final(self).spec_slots() == old(self).spec_slots(),
            final(self).spec_pool().spec_buffers() == old(self).spec_pool().spec_buffers(),
            final(self).spec_pool().same_shape(&old(self).spec_pool()),
            final(self).spec_scheduler() == old(self).spec_scheduler(),
            r is Ok <==> none_in_flight(old(self).spec_slots()),
            r is Err ==> r == Err::<(), StreamError>(StreamError::InvalidSlotState) && *final(self) == *old(self),
            r is Ok ==> final(self).spec_phase() == Phase::Stopped,
    {
        let n = self.pool.len();
        let mut i: usize = 0;
        while i < n
            invariant
                *self == *old(self),
                self.wf(),
                n == self.spec_slots().len(),
                i <= n,
                forall|j: int| 0 <= j < i ==> self.spec_slots()[j] != SlotState::InFlight,
            decreases n - i,
        {
            if self.pool.state(i) == SlotState::InFlight {
                return Err(StreamError::InvalidSlotState);
            }
            i = i + 1;
        }
        let _ = self.pool.stop();
        self.phase = Phase::Stopped;
        Ok(())
    }
}

/// Teardown never frees a buffer the transport still holds: once
/// `finish_stop` has succeeded, no slot is in flight, and the stream accepts
/// no more work.
pub proof fn lemma_stopped_holds_nothing(s: Session)
    requires
        s.wf(),
        s.spec_phase() == Phase::Stopped,
    ensures
        none_in_flight(s.spec_slots()),
        !s.spec_pool().spec_accepting(),
{
}

} // verus!
