use vstd::prelude::*;
use vstd::arithmetic::div_mod::{lemma_fundamental_div_mod, lemma_fundamental_div_mod_converse};

use crate::error::StreamError;
use crate::frame::frame_samples;
use crate::pool::{BufferPool, SlotState};
use crate::tone::ToneGenerator;

verus! {

/// Phase continuity: a frame of `a` PCM frames from frame index `start`,
/// followed by a frame of `b` PCM frames from `start + a`, is exactly the
/// stretch of `a + b` frames from `start`; a buffer boundary introduces no
/// skip, repeat or jump in the waveform.
pub proof fn lemma_frames_concatenate(g: ToneGenerator, start: int, a: nat, b: nat, channels: nat)
    requires
        channels >= 1,
    ensures
        frame_samples(g, start, a as int, channels as int) + frame_samples(g, start + a, b as int, channels as int)
            == frame_samples(g, start, (a + b) as int, channels as int),
{
    let ch = channels as int;
    let lhs = frame_samples(g, start, a as int, ch) + frame_samples(g, start + a, b as int, ch);
    let rhs = frame_samples(g, start, (a + b) as int, ch);
    assert((a + b) * ch == a * ch + b * ch) by (nonlinear_arith);
    assert(a * ch >= 0 && b * ch >= 0) by (nonlinear_arith)
        requires
            ch >= 1,
    ;
    assert forall|k: int| 0 <= k < rhs.len() implies lhs[k] == rhs[k] by {
        if k >= a * ch {
            let q = k / ch;
            let r = k % ch;
            lemma_fundamental_div_mod(k, ch);
            assert(k - a * ch == (q - a) * ch + r) by (nonlinear_arith)
                requires
                    k == ch * q + r,
            ;
            lemma_fundamental_div_mod_converse(k - a * ch, ch, q - a, r);
        }
    }
    assert(lhs =~= rhs);
}

/// Purity of a fill: the frame a scheduler writes depends only on its tone,
/// its channel count, its clock and the frame length, never on the slot or
/// on what was written before; channel `c` of frame `f` carries the tone's
/// value at `clock + f`, within the peak.
pub proof fn lemma_fill_is_pure(a: StreamScheduler, b: StreamScheduler, len: nat)
    requires
        a.wf(),
        b.wf(),
        a.spec_generator().spec_frequency() == b.spec_generator().spec_frequency(),
        a.spec_generator().spec_sample_rate() == b.spec_generator().spec_sample_rate(),
        a.spec_generator().spec_period() == b.spec_generator().spec_period(),
        a.spec_channels() == b.spec_channels(),
        a.spec_clock() == b.spec_clock(),
    ensures
        a.next_frame(len) == b.next_frame(len),
        forall|f: int, c: int| 0 <= f < len && 0 <= c < a.spec_channels() ==> {
            let v = #[trigger] a.next_frame(len)[f * a.spec_channels() + c];
            &&& v == a.spec_generator().spec_value(a.spec_clock() + f)
            &&& -(a.spec_generator().spec_peak() as int) <= v <= a.spec_generator().spec_peak()
        },
{
    let ch = a.spec_channels() as int;
    assert(a.next_frame(len) =~= b.next_frame(len));
    assert forall|f: int, c: int| 0 <= f < len && 0 <= c < ch implies {
        let v = #[trigger] a.next_frame(len)[f * ch + c];
        &&& v == a.spec_generator().spec_value(a.spec_clock() + f)
        &&& -(a.spec_generator().spec_peak() as int) <= v <= a.spec_generator().spec_peak()
    } by {
        assert(f * ch + c < len * ch) by (nonlinear_arith)
            requires
                0 <= f < len,
                0 <= c < ch,
        ;
        assert(0 <= f * ch) by (nonlinear_arith)
            requires
                0 <= f,
                0 <= ch,
        ;
        lemma_fundamental_div_mod_converse(f * ch + c, ch, f, c);
        crate::tone::lemma_value_pure(&a.spec_generator(), &a.spec_generator(), a.spec_clock() + f);
    }
}

/// Frames `0..k` of `frames`, joined in order.
pub open spec fn joined(frames: Seq<Seq<i16>>, k: nat) -> Seq<i16>
    decreases k,
{
    if k == 0 {
        Seq::empty()
    } else {
        joined(frames, (k - 1) as nat) + frames[k - 1]
    }
}

/// Phase continuity over a run of fills: when each fill writes the next frame
/// of `len` PCM frames and moves the clock on by `len`, as `refill` and
/// `prime_all` do, the frames written by `k` fills from clock `clocks[0]`,
/// joined in order whichever slots held them, are exactly the tone over
/// `[clocks[0], clocks[0] + k * len)`, and the clock stands at its end.
pub proof fn lemma_fills_are_contiguous(
    g: ToneGenerator,
    channels: nat,
    len: nat,
    clocks: Seq<int>,
    frames: Seq<Seq<i16>>,
    k: nat,
)
    requires
        channels >= 1,
        k <= frames.len(),
        k < clocks.len(),
        forall|j: int| 0 <= j < k ==> #[trigger] frames[j] == frame_samples(g, clocks[j], len as int, channels as int),
        forall|j: int| 0 <= j < k ==> #[trigger] clocks[j + 1] == clocks[j] + len,
    ensures
        clocks[k as int] == clocks[0] + k * len,
        joined(frames, k) == frame_samples(g, clocks[0], (k * len) as int, channels as int),
    decreases k,
{
    if k == 0 {
        assert(joined(frames, 0) =~= frame_samples(g, clocks[0], 0, channels as int));
    } else {
        let m = (k - 1) as nat;
        lemma_fills_are_contiguous(g, channels, len, clocks, frames, m);
        assert(clocks[m + 1 as int] == clocks[m as int] + len);
        assert(m * len + len == k * len) by (nonlinear_arith)
            requires
                m + 1 == k,
        ;
        lemma_frames_concatenate(g, clocks[0], m * len, len, channels);
    }
}

/// Owner of the sample clock: fills each buffer it is handed with the next
/// frame of the tone, so the waveform continues where the last frame ended
/// whichever slot is reused.
pub struct StreamScheduler {
    clock: u64,
    channels: u32,
    generator: ToneGenerator,
    emitted: Ghost<Seq<i16>>,
}

impl StreamScheduler {
    /// PCM frames generated since the stream started.
    pub closed spec fn spec_clock(&self) -> nat {
        self.clock as nat
    }

    pub closed spec fn spec_channels(&self) -> nat {
        self.channels as nat
    }

    pub closed spec fn spec_generator(&self) -> ToneGenerator {
        self.generator
    }

    /// Every sample written so far, buffer after buffer, in the order written.
    pub closed spec fn spec_emitted(&self) -> Seq<i16> {
        self.emitted@
    }

    /// The emitted samples are the tone over frame indices `[0, clock)`.
    pub open spec fn wf(&self) -> bool {
        &&& self.spec_generator().wf()
        &&& self.spec_channels() >= 1
        &&& self.spec_emitted() == frame_samples(self.spec_generator(), 0, self.spec_clock() as int,
            self.spec_channels() as int)
    }

    /// The samples of the next frame of `len` PCM frames: the tone from the
    /// clock on, every channel of a frame carrying the same value.
    pub open spec fn next_frame(&self, len: nat) -> Seq<i16> {
        frame_samples(self.spec_generator(), self.spec_clock() as int, len as int, self.spec_channels() as int)
    }

    /// Whether this scheduler can fill the buffers of `pool`.
    pub open spec fn serves(&self, pool: &BufferPool) -> bool {
        pool.wf() && pool.spec_channels() == self.spec_channels()
    }

    /// A scheduler at frame index zero for buffers of `channels` channels.
    pub fn new(generator: ToneGenerator, channels: u32) -> (r: StreamScheduler)
        requires
            generator.wf(),
            channels >= 1,
        ensures
            r.wf(),
            r.spec_clock() == 0,
            r.spec_channels() == channels,
            r.spec_generator() == generator,
    {
        let r = StreamScheduler { clock: 0, channels, generator, emitted: Ghost(Seq::empty()) };
        assert(r.spec_emitted() =~= frame_samples(generator, 0, 0, channels as int));
        r
    }

    pub fn clock(&self) -> (r: u64)
        ensures
            r == self.spec_clock(),
    {
        self.clock
    }

    pub fn generator(&self) -> (r: &ToneGenerator)
        ensures
            *r == self.spec_generator(),
    {
        &self.generator
    }

    /// Fills free slot `slot` with the next frame, starting at the clock,
    /// advances the clock by the frame length, and hands the slot to the
    /// transport. A refusal changes neither the pool nor the clock.
    pub fn refill(&mut self, pool: &mut BufferPool, slot: usize) -> (r: Result<(), StreamError>)
        requires
            old(self).wf(),
            old(self).serves(old(pool)),
        ensures
            final(self).wf(),
            final(self).serves(final(pool)),
            final(self).spec_generator() == old(self).spec_generator(),
            final(self).spec_channels() == old(self).spec_channels(),
            final(pool).spec_accepting() == old(pool).spec_accepting(),
            final(pool).same_shape(old(pool)),
            r is Ok <==> (old(pool).spec_accepting() && slot < old(pool).spec_slots().len()
                && old(pool).spec_slots()[slot as int] == SlotState::Free
                && old(self).spec_clock() + old(pool).spec_frame_len() <= u64::MAX),
            old(self).spec_clock() + old(pool).spec_frame_len() > u64::MAX
                ==> r == Err::<(), StreamError>(StreamError::ClockOverflow),
            old(self).spec_clock() + old(pool).spec_frame_len() <= u64::MAX && !old(pool).spec_accepting()
                ==> r == Err::<(), StreamError>(StreamError::StreamStopped),
            old(self).spec_clock() + old(pool).spec_frame_len() <= u64::MAX && old(pool).spec_accepting()
                && !(slot < old(pool).spec_slots().len() && old(pool).spec_slots()[slot as int] == SlotState::Free)
                ==> r == Err::<(), StreamError>(StreamError::InvalidSlotState),
            r is Err ==> *final(self) == *old(self) && *final(pool) == *old(pool),
            r is Ok ==> {
                &&& final(pool).spec_slots() == old(pool).spec_slots().update(slot as int, SlotState::InFlight)
                &&& final(pool).spec_buffers() == old(pool).spec_buffers().update(slot as int,
                    final(pool).spec_buffers()[slot as int])
                &&& final(pool).spec_buffers()[slot as int].spec_samples()
                    == old(self).next_frame(old(pool).spec_frame_len())
                &&& final(self).spec_clock() == old(self).spec_clock() + old(pool).spec_frame_len()
                &&& final(self).spec_emitted() == old(self).spec_emitted()
                    + final(pool).spec_buffers()[slot as int].spec_samples()
            },
    {
        let len = pool.frame_len();
        if self.clock > u64::MAX - len as u64 {
            return Err(StreamError::ClockOverflow);
        }
        pool.acquire(slot)?;
        let w = pool.write_slot(slot, &self.generator, self.clock);
        assert(w is Ok);
        let s = pool.submit(slot);
        assert(s is Ok);
        proof {
            lemma_frames_concatenate(self.generator, 0, self.clock as nat, len as nat, self.channels as nat);
            self.emitted = Ghost(self.emitted@ + pool.spec_buffers()[slot as int].spec_samples());
        }
        self.clock = self.clock + len as u64;
        Ok(())
    }

    /// Fills every slot of a fully free pool, in slot order, each with the
    /// frame that follows the previous one, and hands them all to the
    /// transport. Refused without change unless every slot is free, the pool
    /// accepts work, and the clock can advance by all the frames.
    pub fn prime_all(&mut self, pool: &mut BufferPool) -> (r: Result<(), StreamError>)
        requires
            old(self).wf(),
            old(self).serves(old(pool)),
        ensures
            final(self).wf(),
            final(self).serves(final(pool)),
            final(self).spec_generator() == old(self).spec_generator(),
            final(self).spec_channels() == old(self).spec_channels(),
            final(pool).same_shape(old(pool)),
            final(pool).spec_accepting() == old(pool).spec_accepting(),
            r is Ok <==> (old(pool).spec_accepting()
                && (forall|i: int| 0 <= i < old(pool).spec_slots().len() ==> old(pool).spec_slots()[i] == SlotState::Free)
                && old(self).spec_clock() + old(pool).spec_slots().len() * old(pool).spec_frame_len() <= u64::MAX),
            !old(pool).spec_accepting() ==> r == Err::<(), StreamError>(StreamError::StreamStopped),
            old(pool).spec_accepting() && !(forall|i: int| 0 <= i < old(pool).spec_slots().len()
                ==> old(pool).spec_slots()[i] == SlotState::Free)
                ==> r == Err::<(), StreamError>(StreamError::InvalidSlotState),
            old(pool).spec_accepting() && (forall|i: int| 0 <= i < old(pool).spec_slots().len()
                ==> old(pool).spec_slots()[i] == SlotState::Free)
                && old(self).spec_clock() + old(pool).spec_slots().len() * old(pool).spec_frame_len() > u64::MAX
                ==> r == Err::<(), StreamError>(StreamError::ClockOverflow),
            r is Err ==> *final(self) == *old(self) && *final(pool) == *old(pool),
            r is Ok ==> {
                &&& final(pool).spec_slots() == Seq::new(old(pool).spec_slots().len(), |i: int| SlotState::InFlight)
                &&& final(self).spec_clock() == old(self).spec_clock()
                    + old(pool).spec_slots().len() * old(pool).spec_frame_len()
                &&& forall|i: int| 0 <= i < old(pool).spec_slots().len() ==>
                    #[trigger] final(pool).spec_buffers()[i].spec_samples() == frame_samples(
                        old(self).spec_generator(), old(self).spec_clock() + i * old(pool).spec_frame_len(),
                        old(pool).spec_frame_len() as int, old(self).spec_channels() as int)
            },
    {
        if !pool.is_accepting() {
            return Err(StreamError::StreamStopped);
        }
        let n = pool.len();
        let len = pool.frame_len();
        let mut i: usize = 0;
        while i < n
            invariant
                *self == *old(self),
                *pool == *old(pool),
                self.wf(),
                self.serves(pool),
                pool.spec_accepting(),
                n == pool.spec_slots().len(),
                i <= n,
                forall|j: int| 0 <= j < i ==> pool.spec_slots()[j] == SlotState::Free,
            decreases n - i,
        {
            if pool.state(i) != SlotState::Free {
                return Err(StreamError::InvalidSlotState);
            }
            i = i + 1;
        }
        assert(n as u128 * len as u128 <= 0xffff_ffff_ffff_ffffu128 * 0xffff_ffff_ffff_ffffu128)
            by (nonlinear_arith)
            requires
                n <= 0xffff_ffff_ffff_ffffu128,
                len <= 0xffff_ffff_ffff_ffffu128,
        ;
        let total = n as u128 * len as u128;
        assert(total == n * len);
        if total > (u64::MAX - self.clock) as u128 {
            return Err(StreamError::ClockOverflow);
        }
        let ghost clock0 = self.clock as int;
        let ghost pool0 = *pool;
        let mut i: usize = 0;
        while i < n
            invariant
                self.wf(),
                self.serves(pool),
                self.spec_generator() == old(self).spec_generator(),
                self.spec_channels() == old(self).spec_channels(),
                n == pool.spec_slots().len(),
                len == pool.spec_frame_len(),
                len == pool0.spec_frame_len(),
                pool.same_shape(&pool0),
                pool.spec_accepting(),
                clock0 + n * len <= u64::MAX,
                i <= n,
                self.spec_clock() == clock0 + i * len,
                forall|j: int| 0 <= j < i ==> pool.spec_slots()[j] == SlotState::InFlight,
                forall|j: int| i <= j < n ==> pool.spec_slots()[j] == SlotState::Free,
                forall|j: int| 0 <= j < i ==> #[trigger] pool.spec_buffers()[j].spec_samples() == frame_samples(
                    old(self).spec_generator(), clock0 + j * len, len as int, old(self).spec_channels() as int),
            decreases n - i,
        {
            assert(clock0 + i * len + len <= clock0 + n * len) by (nonlinear_arith)
                requires
                    i < n,
            ;
            assert(clock0 + i * len + len == clock0 + (i + 1) * len) by (nonlinear_arith);
            let r = self.refill(pool, i);
            assert(r is Ok);
            i = i + 1;
        }
        assert(pool.spec_slots() =~= Seq::new(n as nat, |j: int| SlotState::InFlight));
        Ok(())
    }
}

} // verus!
