//! Timing a light pulse with one buffer of 500 samples that is halved
//! whenever it fills past 400: every other sample is dropped and the rate
//! at which samples are taken halves with it.
use vstd::prelude::*;
use crate::clock::{LaxDuration, LaxMonotonic};
use crate::measurement::{
    MARGIN_SAMPLES, SamplingBufferWriteResult, every_nth, integrated_duration, larger,
    law_integrated_duration_within_raw,
};
use crate::ring::{history500, ring_len, ring_oldest, ring_wf, ring_write, lemma_ring_write, h500_len, h500_new, h500_raw, h500_write};

verus! {

/// Capacity of the buffer of a compacting measurement.
pub const RING_BUFFER_LEN: usize = 500;

/// The buffer of a compacting measurement.
pub type RingBuffer = heapless::HistoryBuffer<u16, 500>;

/// Once a buffer holds more samples than this, it is halved.
pub open spec fn compaction_limit() -> nat {
    (RING_BUFFER_LEN - MARGIN_SAMPLES) as nat
}

/// Takes one of every `divisor` samples that are offered.
#[derive(Clone, Copy)]
pub struct SampleRate {
    sample_rate: u32,
    sample_rate_counter: u32,
}

impl SampleRate {
    /// One sample of this many is taken.
    pub closed spec fn div(self) -> u32 {
        self.sample_rate
    }

    /// Samples offered since the last one taken, modulo the divisor.
    pub closed spec fn count(self) -> u32 {
        self.sample_rate_counter
    }

    pub open spec fn wf(self) -> bool {
        self.div() >= 1 && self.count() < self.div()
    }

    pub fn new(sample_rate: u32) -> (r: Self)
        ensures
            r.div() == sample_rate,
            r.count() == 0,
    {
        SampleRate { sample_rate, sample_rate_counter: 0 }
    }

    /// Offers one sample; returns whether it is taken, which is the case
    /// on every `div()`-th offer.
    pub fn step(&mut self) -> (taken: bool)
        requires
            old(self).wf(),
        ensures
            final(self).div() == old(self).div(),
            final(self).count() == (old(self).count() + 1) % (old(self).div() as int),
            final(self).wf(),
            taken == (final(self).count() == 0),
    {
        self.sample_rate_counter = (self.sample_rate_counter + 1) % self.sample_rate;
        self.sample_rate_counter == 0
    }

    /// Takes `ratio` times fewer samples from now on.
    pub fn mul(&mut self, ratio: u32)
        requires
            old(self).div() * ratio <= u32::MAX,
        ensures
            final(self).div() == old(self).div() * ratio,
            final(self).count() == old(self).count(),
    {
        self.sample_rate = self.sample_rate * ratio;
    }

    pub fn sample_rate(&self) -> (d: u32)
        ensures
            d == self.div(),
    {
        self.sample_rate
    }
}

/// The counter of a rate divider with divisor `d` after `k` offers, when it
/// started at 0.
pub open spec fn counter_after(d: nat, k: nat) -> nat
    decreases k,
{
    if k == 0 { 0 } else { (counter_after(d, (k - 1) as nat) + 1) % d }
}

/// A fresh rate divider takes the `k`-th offered sample exactly when `k`
/// is a multiple of its divisor.
pub proof fn law_sample_rate_takes_every_nth(d: nat, k: nat)
    requires
        d >= 1,
    ensures
        counter_after(d, k) == k % d,
        (counter_after(d, k) == 0) == (k % d == 0),
    decreases k,
{
    if k > 0 {
        law_sample_rate_takes_every_nth(d, (k - 1) as nat);
        let a = (k - 1) as int;
        let dd = d as int;
        vstd::arithmetic::div_mod::lemma_add_mod_noop_right(1, a, dd);
        assert((1 + (a % dd)) % dd == (1 + a) % dd);
    }
}

/// The effect of one write on a compacting buffer's samples, rate
/// (divisor, counter) and count of samples since the start: a sample that
/// the rate takes is appended and counted; when that leaves more than 400
/// samples, every other sample is dropped (the first one stays), the count
/// is halved and the divisor doubled.
pub open spec fn sampling_write(samples: Seq<u16>, rate: (u32, u32), since: nat, value: u16) -> (
    Seq<u16>,
    (u32, u32),
    nat,
    SamplingBufferWriteResult,
) {
    let counter = ((rate.1 + 1) % (rate.0 as int)) as u32;
    if counter != 0 {
        (samples, (rate.0, counter), since, SamplingBufferWriteResult::Discarded)
    } else {
        let s1 = samples.push(value);
        if s1.len() > compaction_limit() {
            (every_nth(s1, 2), ((rate.0 * 2) as u32, counter), (since + 1) / 2, SamplingBufferWriteResult::SampledAndCompacted {
                factor: 2,
            })
        } else {
            (s1, (rate.0, counter), since + 1, SamplingBufferWriteResult::Sampled)
        }
    }
}

/// A buffer that keeps every sample its rate divider takes, halving itself
/// and its rate when it runs full.
pub struct SamplingBuffer<const LEN: usize> {
    buffer: heapless::HistoryBuffer<u16, LEN>,
    sample_rate: SampleRate,
    samples_since_start: usize,
}

impl SamplingBuffer<500> {
    pub closed spec fn contents(&self) -> (Seq<u16>, Seq<u16>) {
        history500(self.buffer)
    }

    pub closed spec fn rate(&self) -> SampleRate {
        self.sample_rate
    }

    pub closed spec fn since_start(&self) -> usize {
        self.samples_since_start
    }

    /// The samples of a buffer that has never wrapped round.
    pub open spec fn samples(&self) -> Seq<u16> {
        self.contents().0
    }

    /// The buffer has not wrapped round, holds at most 400 samples, at least
    /// as many as it counted since the start, and its rate is sound.
    pub open spec fn wf(&self) -> bool {
        &&& self.contents().1.len() == 0
        &&& self.samples().len() <= compaction_limit()
        &&& self.rate().wf()
        &&& self.since_start() <= self.samples().len()
    }

    /// A sampling buffer over `buffer`, taking every sample, with nothing
    /// counted yet.
    pub fn new(buffer: RingBuffer) -> (b: Self)
        ensures
            b.contents() == history500(buffer),
            b.rate().div() == 1,
            b.rate().count() == 0,
            b.since_start() == 0,
    {
        SamplingBuffer { buffer, sample_rate: SampleRate::new(1), samples_since_start: 0 }
    }

    pub fn into_inner(self) -> (b: RingBuffer)
        ensures
            history500(b) == self.contents(),
    {
        self.buffer
    }

    pub fn samples_since_start(&self) -> (n: usize)
        ensures
            n == self.since_start(),
    {
        self.samples_since_start
    }

    pub fn sample_rate(&self) -> (r: &SampleRate)
        ensures
            *r == self.rate(),
    {
        &self.sample_rate
    }

    /// Appends samples ahead of the sampling, without counting them.
    pub fn extend_pre_buffer(&mut self, values: &Vec<u16>)
        requires
            old(self).contents().1.len() == 0,
            old(self).samples().len() + values.len() <= RING_BUFFER_LEN,
        ensures
            final(self).contents() == (old(self).samples() + values@, Seq::<u16>::empty()),
            final(self).rate() == old(self).rate(),
            final(self).since_start() == old(self).since_start(),
    {
        let ghost start = self.samples();
        let mut i: usize = 0;
        while i < values.len()
            invariant
                i <= values.len(),
                start.len() + values.len() <= 500,
                history500(self.buffer) == (start + values@.take(i as int), Seq::<u16>::empty()),
                self.sample_rate == old(self).rate(),
                self.samples_since_start == old(self).since_start(),
            decreases values.len() - i,
        {
            h500_write(&mut self.buffer, values[i]);
            assert(start + values@.take(i as int + 1) =~= (start + values@.take(i as int)).push(values@[i as int]));
            i = i + 1;
        }
        assert(values@.take(values.len() as int) =~= values@);
    }

    /// Offers one sample.
    pub fn write(&mut self, value: u16) -> (r: SamplingBufferWriteResult)
        requires
            old(self).wf(),
            old(self).samples().len() + 1 > compaction_limit()
                && (old(self).rate().count() + 1) % (old(self).rate().div() as int) == 0
                ==> old(self).rate().div() * 2 <= u32::MAX,
        ensures
            final(self).wf(),
            ({
                let w = sampling_write(
                    old(self).samples(),
                    (old(self).rate().div(), old(self).rate().count()),
                    old(self).since_start() as nat,
                    value,
                );
                &&& final(self).samples() == w.0
                &&& (final(self).rate().div(), final(self).rate().count()) == w.1
                &&& final(self).since_start() == w.2
                &&& r == w.3
            }),
    {
        if !self.sample_rate.step() {
            return SamplingBufferWriteResult::Discarded;
        }
        proof {
            lemma_ring_write(history500(self.buffer), 500, value);
        }
        h500_write(&mut self.buffer, value);
        self.samples_since_start = self.samples_since_start + 1;

        if h500_len(&self.buffer) > RING_BUFFER_LEN - MARGIN_SAMPLES {
            let raw = h500_raw(&self.buffer);
            let ghost s1 = raw@;
            assert(s1 == self.samples());
            let mut new_buffer = h500_new();
            let mut i: usize = 0;
            let mut k: usize = 0;
            while i < raw.len()
                invariant
                    raw@ == s1,
                    s1.len() == compaction_limit() + 1,
                    i == 2 * k,
                    i <= s1.len() + 1,
                    history500(new_buffer).1.len() == 0,
                    history500(new_buffer).0 == Seq::new(k as nat, |t: int| s1[t * 2]),
                decreases s1.len() + 1 - i,
            {
                h500_write(&mut new_buffer, raw[i]);
                assert(Seq::new((k + 1) as nat, |t: int| s1[t * 2]) =~= Seq::new(k as nat, |t: int| s1[t * 2]).push(s1[i as int]));
                i = i + 2;
                k = k + 1;
            }
            assert(history500(new_buffer).0 =~= every_nth(s1, 2)) by {
                assert(k == (s1.len() - 1) as nat / 2 + 1);
            }
            self.buffer = new_buffer;
            let factor: u32 = 2;
            self.samples_since_start = self.samples_since_start / factor as usize;
            self.sample_rate.mul(factor);
            return SamplingBufferWriteResult::SampledAndCompacted { factor };
        }
        SamplingBufferWriteResult::Sampled
    }
}

/// A finished compacting measurement.
pub struct MeasurementResult {
    pub duration_micros: u64,
    pub integrated_duration_micros: u64,
    pub sample_buffer: RingBuffer,
    pub samples_since_start: usize,
    pub samples_since_end: usize,
}

/// The phases of a compacting measurement.
pub enum Measurement<M: LaxMonotonic> {
    /// Keeping the recent light level until it rises above `trigger_high`.
    Idle { buffer: RingBuffer, trigger_high: u16, trigger_low: u16 },
    /// Following a pulse until the light falls below `trigger_low`.
    Measuring {
        since: M::Instant,
        peak: u16,
        integrated: u64,
        trigger_low: u16,
        sampling_buffer: SamplingBuffer<500>,
    },
    /// Adding the margin after the pulse.
    Trailing {
        buffer: RingBuffer,
        samples_since_start: usize,
        samples_since_end: usize,
        duration_micros: u64,
        integrated_duration_micros: u64,
        sample_rate: SampleRate,
    },
    Done(MeasurementResult),
}

/// A compacting measurement with its buffers seen through their contents,
/// its rates as (divisor, counter) and its clock readings as instants of
/// type `I`.
pub enum CompactingView<I> {
    Idle { samples: (Seq<u16>, Seq<u16>), trigger_high: u16, trigger_low: u16 },
    Measuring {
        since: I,
        peak: u16,
        integrated: u64,
        trigger_low: u16,
        samples: (Seq<u16>, Seq<u16>),
        rate: (u32, u32),
        since_start: usize,
    },
    Trailing {
        samples: (Seq<u16>, Seq<u16>),
        since_start: usize,
        since_end: usize,
        duration_micros: u64,
        integrated_duration_micros: u64,
        rate: (u32, u32),
    },
    Done {
        duration_micros: u64,
        integrated_duration_micros: u64,
        samples: (Seq<u16>, Seq<u16>),
        since_start: usize,
        since_end: usize,
    },
}

impl<M: LaxMonotonic> View for Measurement<M> {
    type V = CompactingView<M::Instant>;

    open spec fn view(&self) -> CompactingView<M::Instant> {
        match *self {
            Measurement::Idle { buffer, trigger_high, trigger_low } => CompactingView::Idle {
                samples: history500(buffer),
                trigger_high,
                trigger_low,
            },
            Measurement::Measuring { since, peak, integrated, trigger_low, sampling_buffer } => CompactingView::Measuring {
                since,
                peak,
                integrated,
                trigger_low,
                samples: sampling_buffer.contents(),
                rate: (sampling_buffer.rate().div(), sampling_buffer.rate().count()),
                since_start: sampling_buffer.since_start(),
            },
            Measurement::Trailing {
                buffer,
                samples_since_start,
                samples_since_end,
                duration_micros,
                integrated_duration_micros,
                sample_rate,
            } => CompactingView::Trailing {
                samples: history500(buffer),
                since_start: samples_since_start,
                since_end: samples_since_end,
                duration_micros,
                integrated_duration_micros,
                rate: (sample_rate.div(), sample_rate.count()),
            },
            Measurement::Done(r) => CompactingView::Done {
                duration_micros: r.duration_micros,
                integrated_duration_micros: r.integrated_duration_micros,
                samples: history500(r.sample_buffer),
                since_start: r.samples_since_start,
                since_end: r.samples_since_end,
            },
        }
    }
}

/// The shape that construction and stepping keep: only a waiting or a
/// finished measurement may hold a buffer that wrapped round; while
/// following a pulse at most 400 samples are held, the margin after it
/// never takes the buffer past its capacity, and the pulse's start and end
/// always lie within the samples held.
pub open spec fn compacting_wf<I>(v: CompactingView<I>) -> bool {
    match v {
        CompactingView::Idle { samples, .. } => ring_wf(samples, 500),
        CompactingView::Measuring { samples, rate, since_start, .. } => {
            &&& samples.1.len() == 0
            &&& samples.0.len() <= compaction_limit()
            &&& rate.0 >= 1 && rate.1 < rate.0
            &&& since_start <= samples.0.len()
        },
        CompactingView::Trailing { samples, since_start, since_end, rate, .. } => {
            &&& samples.1.len() == 0
            &&& rate.0 >= 1 && rate.1 < rate.0
            &&& since_end <= trailing_margin(rate.0)
            &&& samples.0.len() <= compaction_limit() + since_end
            &&& since_end <= since_start <= samples.0.len()
        },
        CompactingView::Done { samples, since_start, since_end, .. } => {
            &&& ring_wf(samples, 500)
            &&& since_end <= since_start <= ring_len(samples)
        },
    }
}

/// A finished compacting measurement marks its pulse within its samples:
/// the start and the end, counted back from the newest sample, never reach
/// past the oldest one, and the end comes no earlier than the start.
pub proof fn law_compacting_result_marks_within_samples<I>(v: CompactingView<I>)
    requires
        compacting_wf(v),
        v is Done,
    ensures
        v matches CompactingView::Done { samples, since_start, since_end, .. } && since_end <= since_start
            <= ring_len(samples),
{
}

/// The running integral after a write with outcome `o`.
pub open spec fn integrated_after(integrated: u64, value: u16, o: SamplingBufferWriteResult) -> nat {
    match o {
        SamplingBufferWriteResult::Discarded => integrated as nat,
        SamplingBufferWriteResult::Sampled => (integrated + value) as nat,
        SamplingBufferWriteResult::SampledAndCompacted { .. } => ((integrated + value) / 2) as nat,
    }
}

/// The margin kept after the pulse, in samples at the rate `divisor`.
pub open spec fn trailing_margin(divisor: u32) -> nat {
    ((MARGIN_SAMPLES as int) / (divisor as int)) as nat
}

/// Whether a sample makes a compacting measurement read the clock: the
/// sample that fires the trigger, and the one that ends the pulse.
pub open spec fn compacting_reads_clock<I>(a: CompactingView<I>, value: u16) -> bool {
    match a {
        CompactingView::Idle { trigger_high, .. } => value > trigger_high,
        CompactingView::Measuring { trigger_low, .. } => value < trigger_low,
        _ => false,
    }
}

/// The effect of one sample on a compacting measurement, with `now` the
/// clock's reading taken for it, if any.  A pulse starts at the reading
/// taken when the trigger fires; when it ends, `duration_micros` is the
/// clock's span from that start to the reading taken then, in
/// microseconds.  When the margin after the pulse is complete, the result
/// keeps the pulse with at most that margin on either side, less where the
/// pulse was shorter than the margin.
pub open spec fn compacting_step<M: LaxMonotonic>(
    a: CompactingView<M::Instant>,
    value: u16,
    now: Option<M::Instant>,
    b: CompactingView<M::Instant>,
) -> bool {
    match a {
        CompactingView::Idle { samples, trigger_high, trigger_low } => if value > trigger_high {
            b matches CompactingView::Measuring { since, peak, integrated, trigger_low: l, samples: s, rate, since_start }
                && now == Some(since) && peak == value && integrated == 0 && l == trigger_low
                && s == (Seq::<u16>::empty(), Seq::<u16>::empty()) && rate == (1u32, 0u32) && since_start == 0
        } else {
            b == CompactingView::<M::Instant>::Idle { samples: ring_write(samples, 500, value), trigger_high, trigger_low }
        },
        CompactingView::Measuring { since, peak, integrated, trigger_low, samples, rate, since_start } => {
            let w = sampling_write(samples.0, rate, since_start as nat, value);
            let integ = integrated_after(integrated, value, w.3);
            let p = larger(peak, value);
            if value < trigger_low {
                b matches CompactingView::Trailing {
                    samples: s2,
                    since_start: n2,
                    since_end: e2,
                    duration_micros: d,
                    integrated_duration_micros: idm,
                    rate: r2,
                } && s2 == (w.0, Seq::<u16>::empty()) && n2 == w.2 && e2 == 0 && r2 == w.1
                    && (now matches Some(end) && d == M::span(since, end).micros())
                    && idm == integrated_duration(integ, w.2, p, trigger_low, d)
            } else {
                b == CompactingView::Measuring {
                    since,
                    peak: p,
                    integrated: integ as u64,
                    trigger_low,
                    samples: (w.0, Seq::<u16>::empty()),
                    rate: w.1,
                    since_start: w.2 as usize,
                }
            }
        },
        CompactingView::Trailing {
            samples,
            since_start,
            since_end,
            duration_micros,
            integrated_duration_micros,
            rate,
        } => {
            let counter = ((rate.1 + 1) % (rate.0 as int)) as u32;
            let margin = trailing_margin(rate.0);
            if counter != 0 {
                b == CompactingView::<M::Instant>::Trailing {
                    samples,
                    since_start,
                    since_end,
                    duration_micros,
                    integrated_duration_micros,
                    rate: (rate.0, counter),
                }
            } else if since_end < margin {
                b == CompactingView::<M::Instant>::Trailing {
                    samples: (samples.0.push(value), samples.1),
                    since_start: (since_start + 1) as usize,
                    since_end: (since_end + 1) as usize,
                    duration_micros,
                    integrated_duration_micros,
                    rate: (rate.0, counter),
                }
            } else {
                let fm: int = if margin <= since_start - since_end { margin as int } else { since_start - since_end };
                let len = samples.0.len() as int;
                let take = len - since_end + fm;
                let skip = if len - since_start >= fm { len - since_start - fm } else { 0 };
                b == CompactingView::<M::Instant>::Done {
                    duration_micros,
                    integrated_duration_micros,
                    samples: (samples.0.subrange(skip, take), Seq::<u16>::empty()),
                    since_start: (since_start - (margin - fm)) as usize,
                    since_end: (since_end - (margin - fm)) as usize,
                }
            }
        },
        CompactingView::Done { .. } => b == a,
    }
}

/// The order of the phases: waiting, following a pulse, adding the margin
/// after it, done.
pub open spec fn compacting_rank<I>(v: CompactingView<I>) -> nat {
    match v {
        CompactingView::Idle { .. } => 0,
        CompactingView::Measuring { .. } => 1,
        CompactingView::Trailing { .. } => 2,
        CompactingView::Done { .. } => 3,
    }
}

/// One sample moves a compacting measurement on by at most one phase and
/// never back; it leaves waiting exactly when it is above the high
/// threshold, ends a pulse exactly when it is below the low threshold, and
/// a finished measurement stays as it is.
pub proof fn law_compacting_phases_advance<M: LaxMonotonic>(
    a: CompactingView<M::Instant>,
    value: u16,
    now: Option<M::Instant>,
    b: CompactingView<M::Instant>,
)
    requires
        compacting_step::<M>(a, value, now, b),
    ensures
        compacting_rank(b) == compacting_rank(a) || compacting_rank(b) == compacting_rank(a) + 1,
        a matches CompactingView::Idle { trigger_high, .. } ==> (b is Measuring <==> value > trigger_high),
        a matches CompactingView::Measuring { trigger_low, .. } ==> (b is Trailing <==> value < trigger_low),
        a is Done ==> b == a,
{
}

/// While following a pulse, the peak is the largest sample seen: after a
/// sample that does not end the pulse it is at least that sample and at
/// least the peak before, and it is one of the two.
pub proof fn law_compacting_peak_is_largest<M: LaxMonotonic>(
    a: CompactingView<M::Instant>,
    value: u16,
    now: Option<M::Instant>,
    b: CompactingView<M::Instant>,
)
    requires
        compacting_step::<M>(a, value, now, b),
        a is Measuring,
        !(a matches CompactingView::Measuring { trigger_low, .. } && value < trigger_low),
    ensures
        a matches CompactingView::Measuring { peak: p1, .. } && b matches CompactingView::Measuring { peak: p2, .. }
            && p2 >= value && p2 >= p1 && (p2 == value || p2 == p1),
{
}

/// When a pulse ends, its integrated duration never exceeds its raw
/// duration as long as the pulse's area (the running integral, with the
/// closing sample) is at most its sample count times the largest sample
/// seen, which is the peak before the closing sample or that sample.
pub proof fn law_compacting_integrated_within_raw<M: LaxMonotonic>(
    a: CompactingView<M::Instant>,
    value: u16,
    now: Option<M::Instant>,
    b: CompactingView<M::Instant>,
)
    requires
        compacting_step::<M>(a, value, now, b),
        compacting_step_ok(a, value),
        a matches CompactingView::Measuring { peak, integrated, trigger_low, samples, rate, since_start, .. }
            && value < trigger_low && {
            let w = sampling_write(samples.0, rate, since_start as nat, value);
            let integ = integrated_after(integrated, value, w.3);
            let top: int = if value > peak { value as int } else { peak as int };
            &&& integ <= w.2 * top
            &&& w.2 <= u64::MAX
            &&& b matches CompactingView::Trailing { duration_micros, .. } && w.2 * duration_micros <= u64::MAX
        },
    ensures
        b matches CompactingView::Trailing { duration_micros, integrated_duration_micros, .. }
            && integrated_duration_micros <= duration_micros,
{
    if let CompactingView::Measuring { peak, integrated, trigger_low, samples, rate, since_start, .. } = a {
        let w = sampling_write(samples.0, rate, since_start as nat, value);
        let integ = integrated_after(integrated, value, w.3);
        if let CompactingView::Trailing { duration_micros, .. } = b {
            law_integrated_duration_within_raw(integ, w.2, larger(peak, value), trigger_low, duration_micros);
        }
    }
}

/// A compacting buffer never holds fewer samples than it counted since the
/// start, and after a compaction it holds at most half of its limit plus
/// one, its first sample unchanged.
pub proof fn law_compaction_halves(samples: Seq<u16>, rate: (u32, u32), since: nat, value: u16)
    requires
        samples.len() <= compaction_limit(),
        since <= samples.len(),
        rate.0 >= 1,
        rate.1 < rate.0,
    ensures
        sampling_write(samples, rate, since, value).2 <= sampling_write(samples, rate, since, value).0.len(),
        sampling_write(samples, rate, since, value).3 is SampledAndCompacted ==> {
            let w = sampling_write(samples, rate, since, value);
            &&& w.0.len() == compaction_limit() / 2 + 1
            &&& w.0[0] == samples.push(value)[0]
            &&& forall|i: int| 0 <= i < w.0.len() ==> #[trigger] w.0[i] == samples.push(value)[2 * i]
        },
{
}

/// The samples on which `step` does its arithmetic without overflow,
/// underflow or a division by zero.
pub open spec fn compacting_step_ok<I>(a: CompactingView<I>, value: u16) -> bool {
    match a {
        CompactingView::Measuring { peak, integrated, trigger_low, samples, rate, since_start, .. } => {
            let w = sampling_write(samples.0, rate, since_start as nat, value);
            let fires = (rate.1 + 1) % (rate.0 as int) == 0;
            let integ = integrated_after(integrated, value, w.3);
            &&& fires ==> integrated + value <= u64::MAX
            &&& fires && samples.0.len() + 1 > compaction_limit() ==> rate.0 * 2 <= u32::MAX
            &&& value < trigger_low ==> {
                &&& w.2 * trigger_low <= integ
                &&& larger(peak, value) > trigger_low
                &&& w.2 > 0
            }
        },
        _ => true,
    }
}

impl<M: LaxMonotonic> Measurement<M> {
    pub open spec fn wf(&self) -> bool {
        compacting_wf(self@)
    }

    /// A measurement waiting for the light to rise above `trigger_high`,
    /// keeping the recent light level in `buffer`.
    pub fn new(trigger_low: u16, trigger_high: u16, buffer: RingBuffer) -> (m: Self)
        ensures
            m@ == (CompactingView::<M::Instant>::Idle { samples: history500(buffer), trigger_high, trigger_low }),
    {
        Measurement::Idle { buffer, trigger_high, trigger_low }
    }

    /// A measurement that is already done, with a pulse of `ms`
    /// milliseconds and no samples.
    pub fn new_debug_duration(ms: u32) -> (m: Self)
        ensures
            m.wf(),
            m@ == (CompactingView::<M::Instant>::Done {
                duration_micros: (ms * 1000) as u64,
                integrated_duration_micros: (ms * 1000) as u64,
                samples: (Seq::<u16>::empty(), Seq::<u16>::empty()),
                since_start: 0,
                since_end: 0,
            }),
    {
        Measurement::Done(MeasurementResult {
            duration_micros: ms as u64 * 1000,
            integrated_duration_micros: ms as u64 * 1000,
            sample_buffer: h500_new(),
            samples_since_start: 0,
            samples_since_end: 0,
        })
    }

    pub fn is_done(&self) -> (b: bool)
        ensures
            b == (self@ is Done),
    {
        match self {
            Measurement::Done(_) => true,
            _ => false,
        }
    }

    /// Whether `value` makes the measurement read the clock.
    pub fn reads_clock(&self, value: u16) -> (b: bool)
        ensures
            b == compacting_reads_clock(self@, value),
    {
        match self {
            Measurement::Idle { trigger_high, .. } => value > *trigger_high,
            Measurement::Measuring { trigger_low, .. } => value < *trigger_low,
            _ => false,
        }
    }

    /// Feeds one sample to the measurement, reading the clock when the
    /// sample fires the trigger or ends the pulse.
    pub fn step(&mut self, value: u16)
        requires
            old(self).wf(),
            compacting_step_ok(old(self)@, value),
        ensures
            final(self).wf(),
            exists|now: Option<M::Instant>| #[trigger] compacting_step::<M>(old(self)@, value, now, final(self)@),
    {
        let now = if self.reads_clock(value) {
            Some(M::now())
        } else {
            None
        };
        let ghost reading = now;
        self.step_at(value, now);
        assert(compacting_step::<M>(old(self)@, value, reading, self@));
    }

    /// Feeds one sample to the measurement, with `now` the clock's reading
    /// for a sample that fires the trigger or ends the pulse.
    pub fn step_at(&mut self, value: u16, now: Option<M::Instant>)
        requires
            old(self).wf(),
            compacting_step_ok(old(self)@, value),
            compacting_reads_clock(old(self)@, value) ==> now is Some,
        ensures
            final(self).wf(),
            compacting_step::<M>(old(self)@, value, now, final(self)@),
    {
        match self {
            Measurement::Idle { buffer, trigger_high, trigger_low } => {
                proof {
                    lemma_ring_write(history500(*buffer), 500, value);
                }
                h500_write(buffer, value);
                if value > *trigger_high {
                    let start = now.unwrap();
                    let low = *trigger_low;
                    let sampling_buffer = SamplingBuffer::new(h500_new());
                    *self = Measurement::Measuring { since: start, peak: value, integrated: 0, trigger_low: low, sampling_buffer };
                }
            },
            Measurement::Measuring { since, peak, integrated, trigger_low, sampling_buffer } => {
                if value > *peak {
                    *peak = value;
                }
                match sampling_buffer.write(value) {
                    SamplingBufferWriteResult::Discarded => (),
                    SamplingBufferWriteResult::Sampled => {
                        *integrated = *integrated + value as u64;
                    },
                    SamplingBufferWriteResult::SampledAndCompacted { factor } => {
                        *integrated = *integrated + value as u64;
                        *integrated = *integrated / factor as u64;
                    },
                }
                assert(sampling_buffer.contents().1 =~= Seq::<u16>::empty());
                if value < *trigger_low {
                    let t_end = now.unwrap();
                    let samples_since_start = sampling_buffer.samples_since_start();
                    let sample_rate = *sampling_buffer.sample_rate();
                    let mut taken = SamplingBuffer::new(h500_new());
                    core::mem::swap(sampling_buffer, &mut taken);
                    let sample_buffer = taken.into_inner();
                    let low = *trigger_low;
                    proof {
                        assert((samples_since_start as int) * (low as int) <= 0xFFFF_FFFF_FFFF_FFFFint) by {
                            assert(samples_since_start * low <= *integrated);
                        }
                    }
                    let integrated_value_samples = *integrated - samples_since_start as u64 * low as u64;
                    let integrated_duration_samples = integrated_value_samples / (*peak - low) as u64;
                    let elapsed = M::elapsed(since, &t_end);
                    let duration_micros = elapsed.to_micros();
                    assert(duration_micros == M::span(*since, t_end).micros());
                    let integrated_duration_micros = integrated_duration_samples.wrapping_mul(duration_micros)
                        / samples_since_start as u64;
                    *self = Measurement::Trailing {
                        buffer: sample_buffer,
                        samples_since_start,
                        samples_since_end: 0,
                        duration_micros,
                        integrated_duration_micros,
                        sample_rate,
                    };
                }
            },
            Measurement::Trailing {
                buffer,
                samples_since_start,
                samples_since_end,
                duration_micros,
                integrated_duration_micros,
                sample_rate,
            } => {
                if !sample_rate.step() {
                    return;
                }
                let margin = MARGIN_SAMPLES / sample_rate.sample_rate() as usize;
                if *samples_since_end < margin {
                    proof {
                        lemma_ring_write(history500(*buffer), 500, value);
                    }
                    h500_write(buffer, value);
                    *samples_since_end = *samples_since_end + 1;
                    *samples_since_start = *samples_since_start + 1;
                } else {
                    let final_margin = if margin <= *samples_since_start - *samples_since_end {
                        margin
                    } else {
                        *samples_since_start - *samples_since_end
                    };
                    let buffer_len = h500_len(buffer);
                    let end_index = buffer_len - *samples_since_end;
                    let take_n = end_index + final_margin;
                    let start_index = buffer_len - *samples_since_start;
                    let skip = if start_index >= final_margin { start_index - final_margin } else { 0 };
                    let raw = h500_raw(buffer);
                    let ghost s = raw@;
                    let mut final_buffer = h500_new();
                    let mut i: usize = skip;
                    while i < take_n
                        invariant
                            raw@ == s,
                            skip <= i <= take_n <= s.len() <= 500,
                            history500(final_buffer) == (s.subrange(skip as int, i as int), Seq::<u16>::empty()),
                        decreases take_n - i,
                    {
                        h500_write(&mut final_buffer, raw[i]);
                        assert(s.subrange(skip as int, i as int + 1) =~= s.subrange(skip as int, i as int).push(s[i as int]));
                        i = i + 1;
                    }
                    let since_start = *samples_since_start - (margin - final_margin);
                    let since_end = *samples_since_end - (margin - final_margin);
                    let result = MeasurementResult {
                        duration_micros: *duration_micros,
                        integrated_duration_micros: *integrated_duration_micros,
                        sample_buffer: final_buffer,
                        samples_since_start: since_start,
                        samples_since_end: since_end,
                    };
                    *self = Measurement::Done(result);
                }
            },
            Measurement::Done(_) => (),
        }
    }

    /// Whether `step` can take `value` without an arithmetic overflow,
    /// underflow or division by zero.
    pub fn can_step(&self, value: u16) -> (ok: bool)
        requires
            self.wf(),
        ensures
            ok == compacting_step_ok(self@, value),
    {
        match self {
            Measurement::Measuring { peak, integrated, trigger_low, sampling_buffer, .. } => {
                let div = sampling_buffer.sample_rate.sample_rate;
                let counter = sampling_buffer.sample_rate.sample_rate_counter;
                let fires = (counter + 1) % div == 0;
                let len = h500_len(&sampling_buffer.buffer);
                let n = sampling_buffer.samples_since_start;
                let compacts = len + 1 > RING_BUFFER_LEN - MARGIN_SAMPLES;
                if fires && *integrated > u64::MAX - value as u64 {
                    return false;
                }
                if fires && compacts && div > u32::MAX / 2 {
                    return false;
                }
                if value < *trigger_low {
                    let (integ, n2): (u64, usize) = if !fires {
                        (*integrated, n)
                    } else if compacts {
                        ((*integrated + value as u64) / 2, (n + 1) / 2)
                    } else {
                        (*integrated + value as u64, n + 1)
                    };
                    let p = if value > *peak { value } else { *peak };
                    let low = *trigger_low;
                    assert((n2 as int) * (low as int) <= 0xFFFF_FFFF_FFFF_FFFFint * 0xFFFFint) by (nonlinear_arith)
                        requires
                            0 <= n2 <= 0xFFFF_FFFF_FFFF_FFFFint,
                            0 <= low <= 0xFFFFint,
                    ;
                    if (n2 as u128) * (low as u128) > integ as u128 {
                        return false;
                    }
                    if p <= low {
                        return false;
                    }
                    if n2 == 0 {
                        return false;
                    }
                }
                true
            },
            _ => true,
        }
    }

    /// The finished measurement, if the measurement is done.
    pub fn take_result(self) -> (r: Option<MeasurementResult>)
        ensures
            match self {
                Measurement::Done(res) => r == Some(res),
                _ => r is None,
            },
    {
        match self {
            Measurement::Done(result) => Some(result),
            _ => None,
        }
    }
}

} // verus!
