use vstd::prelude::*;

use crate::error::StreamError;

verus! {

/// Largest peak amplitude a signed 16-bit sample can carry.
pub const MAX_PEAK: u16 = 32767;

/// Position inside one waveform period reached by frame index `n`: the tone
/// advances `frequency / sample_rate` cycles per frame, so after `n` frames it
/// sits at `(frequency * n) mod sample_rate` out of `sample_rate` steps.
pub open spec fn phase_of(frequency: int, sample_rate: int, n: int) -> int {
    (frequency * n) % sample_rate
}

/// Whether `table` can serve as one period of a tone of peak `peak`: one entry
/// per phase step, none beyond the peak.
pub open spec fn valid_period(table: Seq<i16>, sample_rate: int, peak: int) -> bool {
    &&& table.len() == sample_rate
    &&& forall|k: int| 0 <= k < table.len() ==> -peak <= #[trigger] table[k] <= peak
}

/// A fixed-frequency sine tone. `period[k]` holds the rounded sample of the
/// wave at phase `k / sample_rate` of a cycle, so the value of any frame index
/// is one lookup, with no state carried from one call to the next.
pub struct ToneGenerator {
    frequency: u32,
    sample_rate: u32,
    peak_amplitude: u16,
    period: Vec<i16>,
}

impl ToneGenerator {
    pub closed spec fn spec_frequency(&self) -> nat {
        self.frequency as nat
    }

    pub closed spec fn spec_sample_rate(&self) -> nat {
        self.sample_rate as nat
    }

    pub closed spec fn spec_peak(&self) -> nat {
        self.peak_amplitude as nat
    }

    pub closed spec fn spec_period(&self) -> Seq<i16> {
        self.period@
    }

    pub open spec fn wf(&self) -> bool {
        &&& self.spec_sample_rate() >= 1
        &&& self.spec_peak() <= MAX_PEAK
        &&& valid_period(self.spec_period(), self.spec_sample_rate() as int, self.spec_peak() as int)
    }

    /// The PCM value of frame index `n`.
    pub open spec fn spec_value(&self, n: int) -> i16 {
        self.spec_period()[phase_of(self.spec_frequency() as int, self.spec_sample_rate() as int, n)]
    }

    /// Builds a tone from its parameters and one period of samples; refuses a
    /// zero sample rate, a peak beyond `MAX_PEAK`, and a table of the wrong
    /// length or with an entry beyond the peak.
    pub fn new(frequency: u32, sample_rate: u32, peak_amplitude: u16, period: Vec<i16>) -> (r: Result<ToneGenerator, StreamError>)
        ensures
            r is Ok <==> (sample_rate >= 1 && peak_amplitude <= MAX_PEAK
                && valid_period(period@, sample_rate as int, peak_amplitude as int)),
            r is Err ==> r == Err::<ToneGenerator, StreamError>(StreamError::InvalidConfig),
            r matches Ok(g) ==> g.wf() && g.spec_frequency() == frequency
                && g.spec_sample_rate() == sample_rate && g.spec_peak() == peak_amplitude
                && g.spec_period() == period@,
    {
        if sample_rate == 0 || peak_amplitude > MAX_PEAK || period.len() != sample_rate as usize {
            return Err(StreamError::InvalidConfig);
        }
        let peak = peak_amplitude as i16;
        let mut k: usize = 0;
        while k < period.len()
            invariant
                k <= period@.len(),
                peak == peak_amplitude as int,
                forall|j: int| 0 <= j < k ==> -peak <= #[trigger] period@[j] <= peak,
            decreases period@.len() - k,
        {
            let v = period[k];
            if v < -peak || v > peak {
                return Err(StreamError::InvalidConfig);
            }
            k = k + 1;
        }
        Ok(ToneGenerator { frequency, sample_rate, peak_amplitude, period })
    }

    pub fn frequency(&self) -> (r: u32)
        ensures
            r == self.spec_frequency(),
    {
        self.frequency
    }

    pub fn sample_rate(&self) -> (r: u32)
        ensures
            r == self.spec_sample_rate(),
    {
        self.sample_rate
    }

    pub fn peak_amplitude(&self) -> (r: u16)
        ensures
            r == self.spec_peak(),
    {
        self.peak_amplitude
    }

    /// The PCM value of frame index `n`.
    pub fn value(&self, n: u64) -> (r: i16)
        requires
            self.wf(),
        ensures
            r == self.spec_value(n as int),
            -(self.spec_peak() as int) <= r <= self.spec_peak(),
    {
        let f = self.frequency as u128;
        let m = n as u128;
        assert(f * m <= 0xffff_ffffu128 * 0xffff_ffff_ffff_ffffu128) by (nonlinear_arith)
            requires
                f <= 0xffff_ffffu128,
                m <= 0xffff_ffff_ffff_ffffu128,
        ;
        let p = (f * m) % (self.sample_rate as u128);
        let r = self.period[p as usize];
        r
    }
}

/// Purity of the tone: the value of a frame index depends on the tone's
/// parameters and that index alone, so two generators built from the same
/// parameters agree on every index, and every value lies within the peak.
pub proof fn lemma_value_pure(a: &ToneGenerator, b: &ToneGenerator, n: int)
    requires
        a.wf(),
        b.wf(),
        0 <= n,
        a.spec_frequency() == b.spec_frequency(),
        a.spec_sample_rate() == b.spec_sample_rate(),
        a.spec_period() == b.spec_period(),
    ensures
        a.spec_value(n) == b.spec_value(n),
        -(a.spec_peak() as int) <= a.spec_value(n) <= a.spec_peak(),
{
    let p = phase_of(a.spec_frequency() as int, a.spec_sample_rate() as int, n);
    assert(0 <= p < a.spec_sample_rate());
    assert(-(a.spec_peak() as int) <= a.spec_period()[p] <= a.spec_peak());
}

} // verus!
