use vstd::prelude::*;
use vstd::arithmetic::div_mod::{lemma_fundamental_div_mod, lemma_fundamental_div_mod_converse};

use crate::error::StreamError;
use crate::tone::ToneGenerator;

verus! {

/// Bytes in one signed 16-bit PCM sample.
pub const BYTES_PER_SAMPLE: u64 = 2;

/// Whether a buffer layout is usable: at least one packet of at least one byte,
/// at least one channel, and a byte count that holds whole PCM frames.
pub open spec fn valid_layout(packets_per_frame: int, bytes_per_packet: int, channel_count: int) -> bool {
    &&& packets_per_frame >= 1
    &&& bytes_per_packet >= 1
    &&& channel_count >= 1
    &&& (packets_per_frame * bytes_per_packet) % (BYTES_PER_SAMPLE * channel_count) == 0
    &&& packets_per_frame * bytes_per_packet <= usize::MAX
}

/// The interleaved samples of `frames` PCM frames starting at frame index
/// `start`: every channel of frame `f` carries the tone's value at `start + f`.
pub open spec fn frame_samples(g: ToneGenerator, start: int, frames: int, channels: int) -> Seq<i16> {
    Seq::new((frames * channels) as nat, |k: int| g.spec_value(start + k / channels))
}

/// One transfer's worth of interleaved PCM samples, laid out as a fixed number
/// of equally sized isochronous packets.
pub struct FrameBuffer {
    samples: Vec<i16>,
    channel_count: u32,
    packets_per_frame: u32,
    bytes_per_packet: u32,
    packets_written: u32,
}

impl FrameBuffer {
    pub closed spec fn spec_samples(&self) -> Seq<i16> {
        self.samples@
    }

    pub closed spec fn spec_channels(&self) -> nat {
        self.channel_count as nat
    }

    pub closed spec fn spec_packets_per_frame(&self) -> nat {
        self.packets_per_frame as nat
    }

    pub closed spec fn spec_bytes_per_packet(&self) -> nat {
        self.bytes_per_packet as nat
    }

    /// Number of whole packets recorded by the last complete write.
    pub closed spec fn spec_packets_written(&self) -> nat {
        self.packets_written as nat
    }

    /// PCM frames one buffer holds.
    pub open spec fn spec_frame_capacity(&self) -> nat {
        self.spec_samples().len() / self.spec_channels()
    }

    pub open spec fn wf(&self) -> bool {
        &&& valid_layout(self.spec_packets_per_frame() as int, self.spec_bytes_per_packet() as int,
            self.spec_channels() as int)
        &&& self.spec_samples().len() * BYTES_PER_SAMPLE
            == self.spec_packets_per_frame() * self.spec_bytes_per_packet()
        &&& self.spec_samples().len() == self.spec_frame_capacity() * self.spec_channels()
        &&& (self.spec_packets_written() == 0
            || self.spec_packets_written() == self.spec_packets_per_frame())
    }

    /// A silent buffer of `packets_per_frame` packets of `bytes_per_packet`
    /// bytes, interleaving `channel_count` channels.
    pub fn new(packets_per_frame: u32, bytes_per_packet: u32, channel_count: u32) -> (r: Result<FrameBuffer, StreamError>)
        ensures
            r is Ok <==> valid_layout(packets_per_frame as int, bytes_per_packet as int, channel_count as int),
            r is Err ==> r == Err::<FrameBuffer, StreamError>(StreamError::InvalidConfig),
            r matches Ok(b) ==> b.wf() && b.spec_channels() == channel_count
                && b.spec_packets_per_frame() == packets_per_frame
                && b.spec_bytes_per_packet() == bytes_per_packet
                && b.spec_packets_written() == 0
                && b.spec_samples() == Seq::new(b.spec_samples().len(), |k: int| 0i16),
    {
        if packets_per_frame == 0 || bytes_per_packet == 0 || channel_count == 0 {
            return Err(StreamError::InvalidConfig);
        }
        let ppf = packets_per_frame as u64;
        let bpp = bytes_per_packet as u64;
        assert(ppf * bpp <= 0xffff_ffffu64 * 0xffff_ffffu64) by (nonlinear_arith)
            requires
                ppf <= 0xffff_ffffu64,
                bpp <= 0xffff_ffffu64,
        ;
        let bytes = ppf * bpp;
        let frame_bytes = BYTES_PER_SAMPLE * channel_count as u64;
        if bytes % frame_bytes != 0 || bytes > usize::MAX as u64 {
            return Err(StreamError::InvalidConfig);
        }
        let len = (bytes / BYTES_PER_SAMPLE) as usize;
        let mut samples: Vec<i16> = Vec::new();
        while samples.len() < len
            invariant
                samples@.len() <= len,
                forall|k: int| 0 <= k < samples@.len() ==> samples@[k] == 0i16,
            decreases len - samples@.len(),
        {
            samples.push(0);
        }
        let b = FrameBuffer {
            samples,
            channel_count,
            packets_per_frame,
            bytes_per_packet,
            packets_written: 0,
        };
        proof {
            let ch = channel_count as int;
            let q = bytes as int / frame_bytes as int;
            lemma_fundamental_div_mod(bytes as int, frame_bytes as int);
            assert(bytes as int == q * (2 * ch)) by (nonlinear_arith)
                requires
                    bytes as int == frame_bytes as int * q + bytes as int % frame_bytes as int,
                    bytes as int % frame_bytes as int == 0,
                    frame_bytes as int == 2 * ch,
            ;
            assert(bytes as int == 2 * (q * ch)) by (nonlinear_arith)
                requires
                    bytes as int == q * (2 * ch),
            ;
            assert(len as int == q * ch);
            assert(len as int * 2 == ppf as int * bpp as int);
            lemma_fundamental_div_mod_converse(len as int, ch, q, 0);
            assert(b.spec_samples() =~= Seq::new(b.spec_samples().len(), |k: int| 0i16));
        }
        Ok(b)
    }

    pub fn channel_count(&self) -> (r: u32)
        ensures
            r == self.spec_channels(),
    {
        self.channel_count
    }

    /// PCM frames one buffer holds.
    pub fn frame_capacity(&self) -> (r: usize)
        requires
            self.wf(),
        ensures
            r == self.spec_frame_capacity(),
    {
        self.samples.len() / self.channel_count as usize
    }

    /// Samples the buffer holds, all channels counted.
    pub fn sample_capacity(&self) -> (r: usize)
        ensures
            r == self.spec_samples().len(),
    {
        self.samples.len()
    }

    /// Number of whole packets recorded by the last complete write.
    pub fn packets_written(&self) -> (r: u32)
        ensures
            r == self.spec_packets_written(),
    {
        self.packets_written
    }

    /// Sample at position `i` of the interleaved layout.
    pub fn sample(&self, i: usize) -> (r: i16)
        requires
            i < self.spec_samples().len(),
        ensures
            r == self.spec_samples()[i as int],
    {
        self.samples[i]
    }

    /// A copy of the interleaved samples.
    pub fn samples(&self) -> (r: Vec<i16>)
        ensures
            r@ == self.spec_samples(),
    {
        self.samples.clone()
    }

    /// Fills the whole buffer with `count` PCM frames of the tone starting at
    /// frame index `start`, then records its packet count. A count other than
    /// the capacity is refused and leaves the buffer as it was, as is one that
    /// would run past the largest frame index.
    pub fn write(&mut self, g: &ToneGenerator, start: u64, count: usize) -> (r: Result<(), StreamError>)
        requires
            old(self).wf(),
            g.wf(),
        ensures
            final(self).wf(),
            r == Err::<(), StreamError>(StreamError::PartialFrameWrite)
                <==> count != old(self).spec_frame_capacity(),
            r == Err::<(), StreamError>(StreamError::ClockOverflow)
                <==> (count == old(self).spec_frame_capacity() && start + count > u64::MAX),
            r is Ok <==> (count == old(self).spec_frame_capacity() && start + count <= u64::MAX),
            r is Err ==> *final(self) == *old(self),
            r is Ok ==> final(self).spec_samples() == frame_samples(*g, start as int, count as int,
                old(self).spec_channels() as int),
            r is Ok ==> final(self).spec_packets_written() == old(self).spec_packets_per_frame(),
            final(self).spec_channels() == old(self).spec_channels(),
            final(self).spec_packets_per_frame() == old(self).spec_packets_per_frame(),
            final(self).spec_bytes_per_packet() == old(self).spec_bytes_per_packet(),
            final(self).spec_frame_capacity() == old(self).spec_frame_capacity(),
    {
        let ch = self.channel_count as usize;
        let capacity = self.samples.len() / ch;
        if count != capacity {
            return Err(StreamError::PartialFrameWrite);
        }
        if start > u64::MAX - count as u64 {
            return Err(StreamError::ClockOverflow);
        }
        let ghost old_self = *self;
        let len = self.samples.len();
        let mut k: usize = 0;
        let mut f: usize = 0;
        let mut c: usize = 0;
        while k < len
            invariant
                len == self.samples@.len(),
                len == old_self.samples@.len(),
                len == capacity * ch,
                ch == self.channel_count,
                ch >= 1,
                self.channel_count == old_self.channel_count,
                self.packets_per_frame == old_self.packets_per_frame,
                self.bytes_per_packet == old_self.bytes_per_packet,
                self.packets_written == old_self.packets_written,
                g.wf(),
                start + capacity <= u64::MAX,
                k <= len,
                k == f * ch + c,
                c < ch,
                k < len ==> f < capacity,
                forall|j: int| 0 <= j < k ==> #[trigger] self.samples@[j] == g.spec_value(start + j / (ch as int)),
            decreases len - k,
        {
            proof {
                lemma_fundamental_div_mod_converse(k as int, ch as int, f as int, c as int);
            }
            let v = g.value(start + f as u64);
            self.samples.set(k, v);
            k = k + 1;
            if c + 1 == ch {
                assert((f + 1) * ch == f * ch + ch) by (nonlinear_arith);
                if k < len {
                    assert(f + 1 < capacity) by (nonlinear_arith)
                        requires
                            k == (f + 1) * ch,
                            k < len,
                            len == capacity * ch,
                    ;
                }
                f = f + 1;
                c = 0;
            } else {
                c = c + 1;
            }
        }
        self.packets_written = self.packets_per_frame;
        assert(self.spec_samples() =~= frame_samples(*g, start as int, count as int, ch as int));
        Ok(())
    }

    /// Whether the last complete write has not been superseded.
    pub fn is_complete(&self) -> (r: bool)
        ensures
            r == (self.spec_packets_written() == self.spec_packets_per_frame()),
    {
        self.packets_written == self.packets_per_frame
    }

    /// Marks the buffer as not yet written, keeping its samples.
    pub fn clear_written(&mut self)
        requires
            old(self).wf(),
        ensures
            final(self).wf(),
            final(self).spec_packets_written() == 0,
            final(self).spec_samples() == old(self).spec_samples(),
            final(self).spec_channels() == old(self).spec_channels(),
            final(self).spec_packets_per_frame() == old(self).spec_packets_per_frame(),
            final(self).spec_bytes_per_packet() == old(self).spec_bytes_per_packet(),
    {
        self.packets_written = 0;
    }

    /// Length in bytes of each packet recorded by the last complete write.
    pub fn packet_lengths(&self) -> (r: Vec<u32>)
        ensures
            r@ == Seq::new(self.spec_packets_written(), |i: int| self.spec_bytes_per_packet() as u32),
    {
        let mut r: Vec<u32> = Vec::new();
        let mut i: u32 = 0;
        while i < self.packets_written
            invariant
                i <= self.packets_written,
                r@ == Seq::new(i as nat, |j: int| self.bytes_per_packet),
            decreases self.packets_written - i,
        {
            r.push(self.bytes_per_packet);
            i = i + 1;
            assert(r@ =~= Seq::new(i as nat, |j: int| self.bytes_per_packet));
        }
        r
    }
}

} // verus!
