//! Timing a light pulse: the ambient level is averaged, the pulse is
//! detected against trigger thresholds derived from it, followed through a
//! decimating reservoir and closed off by a margin of trailing samples.
use vstd::prelude::*;
use infinity_sampler::{SamplingOutcome, SamplingRate, SamplingReservoir};
use crate::clock::{LaxDuration, LaxMonotonic};
use crate::history_iter::HistoryBufferDoubleEndedIterator;
use crate::ring::{
    history100, history712, ring_len, ring_oldest, ring_wf, ring_write, lemma_ring_write,
    h100_new, h100_write, h100_len, h100_oldest, h712_new, h712_write,
};
use crate::sampler::{
    Outcome, outcome_kind, rate_fires, reservoir_appends, rate_next, rate_state, rate_wf, reservoir_can_sample,
    reservoir_len, reservoir_next, reservoir_ordered, reservoir_outcome, reservoir_reduces,
    reservoir_state, reservoir_wf, lemma_rate_next_wf, lemma_reservoir_next_wf, rate_divisor,
    rate_new, rate_step, reservoir_len_of, reservoir_new, reservoir_ordered_values, reservoir_rate,
    reservoir_sample, reservoir_seen, reservoir_stored,
};
use crate::stats::{seq_max, seq_min, seq_sum, lemma_mean_between, lemma_seq_sum_bound, lemma_seq_sum_reorder};

verus! {

/// The mean of `count` samples that sum up to `total`, rounded down; 0 for
/// no samples.
pub open spec fn mean_of(total: nat, count: nat) -> nat {
    if count == 0 { 0 } else { total / count }
}

/// A running average of ambient light samples.
#[derive(Debug)]
pub struct Calibration {
    sum: u64,
    count: u32,
}

impl Clone for Calibration {
    fn clone(&self) -> (c: Self)
        ensures
            c == *self,
    {
        proof {
            use_type_invariant(self);
        }
        Calibration { sum: self.sum, count: self.count }
    }
}

impl Calibration {
    /// Every sample added is at most 65535, so the sum stays within the
    /// count times that.
    #[verifier::type_invariant]
    spec fn sum_fits(self) -> bool {
        self.sum <= self.count * 65535
    }

    /// Sum of the samples added so far.
    pub closed spec fn total(self) -> nat {
        self.sum as nat
    }

    /// Number of samples added so far.
    pub closed spec fn count(self) -> nat {
        self.count as nat
    }

    fn new() -> (c: Self)
        ensures
            c.total() == 0,
            c.count() == 0,
    {
        Calibration { sum: 0, count: 0 }
    }

    /// Adds one sample.
    pub fn add(&mut self, value: u16)
        requires
            old(self).count() < u32::MAX,
        ensures
            final(self).total() == old(self).total() + value,
            final(self).count() == old(self).count() + 1,
    {
        proof {
            use_type_invariant(&*self);
        }
        let count = self.count;
        assert(self.sum + value <= (count + 1) * 65535) by (nonlinear_arith)
            requires
                self.sum <= count * 65535,
                value <= 65535,
        ;
        assert((count + 1) * 65535 <= u64::MAX) by (nonlinear_arith)
            requires
                count < u32::MAX,
        ;
        *self = Calibration { sum: self.sum + value as u64, count: count + 1 };
    }

    /// Number of samples added so far.
    pub fn samples(&self) -> (n: u32)
        ensures
            n == self.count(),
    {
        self.count
    }

    /// The average of the samples added, rounded down (0 for none),
    /// narrowed to 16 bits.
    fn finish(&self) -> (r: u16)
        ensures
            r == mean_of(self.total(), self.count()) as u16,
    {
        if self.count == 0 {
            return 0;
        }
        (self.sum / self.count as u64) as u16
    }
}

/// A calibration that is finished with its average, or still collecting.
#[derive(Clone, Debug)]
pub enum CalibrationState {
    Done(u16),
    InProgress(Calibration),
}

impl CalibrationState {
    /// Starts a fresh average.
    pub fn begin(&mut self)
        ensures
            *final(self) matches CalibrationState::InProgress(c) && c.total() == 0 && c.count() == 0,
    {
        *self = CalibrationState::InProgress(Calibration::new());
    }

    /// Settles the calibration on its average and returns it; a settled
    /// calibration keeps its value.
    pub fn finish(&mut self) -> (value: u16)
        ensures
            match *old(self) {
                CalibrationState::InProgress(c) => value == mean_of(c.total(), c.count()) as u16,
                CalibrationState::Done(v) => value == v,
            },
            *final(self) == CalibrationState::Done(value),
    {
        match self {
            CalibrationState::InProgress(calibration) => {
                let value = calibration.finish();
                *self = CalibrationState::Done(value);
                value
            },
            CalibrationState::Done(value) => *value,
        }
    }
}

impl Default for CalibrationState {
    fn default() -> (s: Self)
        ensures
            s == CalibrationState::Done(0),
    {
        CalibrationState::Done(0)
    }
}

/// Feeding the calibration samples one by one from a fresh start leaves it
/// settling on the rounded-down mean of those samples (0 for none), which
/// lies between the smallest and the largest of them.
pub proof fn law_calibration_settles_on_mean(totals: Seq<nat>, counts: Seq<nat>, values: Seq<u16>)
    requires
        totals.len() == values.len() + 1,
        counts.len() == values.len() + 1,
        totals[0] == 0,
        counts[0] == 0,
        forall|i: int| 0 <= i < values.len() ==> #[trigger] totals[i + 1] == totals[i] + values[i],
        forall|i: int| 0 <= i < values.len() ==> #[trigger] counts[i + 1] == counts[i] + 1,
    ensures
        mean_of(totals.last(), counts.last()) == mean_of(seq_sum(values), values.len()),
        mean_of(totals.last(), counts.last()) <= 65535,
        values.len() > 0 ==> seq_min(values) <= mean_of(totals.last(), counts.last()) <= seq_max(values),
{
    lemma_totals_track(totals, counts, values, values.len() as int);
    if values.len() > 0 {
        lemma_mean_between(values);
    }
    assert(values.take(values.len() as int) =~= values);
    lemma_seq_sum_bound(values);
    if values.len() > 0 {
        let t = seq_sum(values) as int;
        let c = values.len() as int;
        assert(t / c <= 65535) by (nonlinear_arith)
            requires
                0 <= t <= c * 65535,
                c > 0,
        {
            assert(t / c * c <= t);
        }
    }
}

/// The average that a calibration settles on does not depend on the order
/// in which its samples were added.
pub proof fn law_calibration_mean_ignores_order(values: Seq<u16>, reordered: Seq<u16>)
    requires
        values.to_multiset() == reordered.to_multiset(),
    ensures
        mean_of(seq_sum(values), values.len()) == mean_of(seq_sum(reordered), reordered.len()),
{
    lemma_seq_sum_reorder(values, reordered);
}

proof fn lemma_totals_track(totals: Seq<nat>, counts: Seq<nat>, values: Seq<u16>, k: int)
    requires
        totals.len() == values.len() + 1,
        counts.len() == values.len() + 1,
        totals[0] == 0,
        counts[0] == 0,
        forall|i: int| 0 <= i < values.len() ==> #[trigger] totals[i + 1] == totals[i] + values[i],
        forall|i: int| 0 <= i < values.len() ==> #[trigger] counts[i + 1] == counts[i] + 1,
        0 <= k <= values.len(),
    ensures
        totals[k] == seq_sum(values.take(k)),
        counts[k] == k,
    decreases k,
{
    if k > 0 {
        lemma_totals_track(totals, counts, values, k - 1);
        assert(values.take(k).drop_last() =~= values.take(k - 1));
        assert(totals[(k - 1) + 1] == totals[k - 1] + values[k - 1]);
        assert(counts[(k - 1) + 1] == counts[k - 1] + 1);
    } else {
        assert(values.take(0) =~= Seq::<u16>::empty());
    }
}

/// What a write into a sampling buffer did with the sample.
pub enum SamplingBufferWriteResult {
    Discarded,
    Sampled,
    SampledAndCompacted { factor: u32 },
}

/// A reservoir of samples together with the count of samples since the
/// start of a pulse, kept at the reservoir's current rate.
pub struct SamplingBuffer<const LEN: usize> {
    buffer: SamplingReservoir<u16, LEN>,
    samples_since_start: usize,
}

impl SamplingBuffer<512> {
    pub closed spec fn reservoir(&self) -> SamplingReservoir<u16, 512> {
        self.buffer
    }

    pub closed spec fn since_start(&self) -> usize {
        self.samples_since_start
    }

    pub fn new(buffer: SamplingReservoir<u16, 512>, samples_since_start: usize) -> (b: Self)
        ensures
            b.reservoir() == buffer,
            b.since_start() == samples_since_start,
    {
        SamplingBuffer { buffer, samples_since_start }
    }

    pub fn into_inner(self) -> (r: SamplingReservoir<u16, 512>)
        ensures
            r == self.reservoir(),
    {
        self.buffer
    }

    pub fn samples_since_start(&self) -> (n: usize)
        ensures
            n == self.since_start(),
    {
        self.samples_since_start
    }

    /// The reservoir's current rate divider.
    pub fn sample_rate(&self) -> (r: SamplingRate)
        ensures
            rate_state(r) == reservoir_state(self.reservoir()).0,
    {
        reservoir_rate(&self.buffer)
    }

    /// Whether `write` can take a sample: the reservoir is in the shape
    /// that sampling keeps and none of the counters overflows.
    pub fn can_write(&self) -> (ok: bool)
        requires
            rate_wf(reservoir_state(self.reservoir()).0),
        ensures
            ok == ({
                let s = reservoir_state(self.reservoir());
                &&& reservoir_wf(s)
                &&& reservoir_can_sample(s)
                &&& reservoir_outcome(s) == Outcome::Consumed ==> self.since_start() < usize::MAX
            }),
    {
        let mut rate = reservoir_rate(&self.buffer);
        let divisor = rate_divisor(&rate);
        let fires = rate_step(&mut rate);
        let stored = reservoir_stored(&self.buffer);
        let seen = reservoir_seen(&self.buffer);
        if divisor == 1 && stored != seen {
            return false;
        }
        if seen == usize::MAX {
            return false;
        }
        if fires && stored == usize::MAX {
            return false;
        }
        let reduces = stored >= 512 && (stored - 512) % 256 == 0;
        if fires && reduces && divisor > u32::MAX / 2 {
            return false;
        }
        if fires && !reduces && self.samples_since_start == usize::MAX {
            return false;
        }
        true
    }

    /// Offers a sample to the reservoir; a stored sample counts towards the
    /// samples since the start, and a rate reduction divides that count by
    /// the reduction factor.
    pub fn write(&mut self, value: u16) -> (o: SamplingOutcome<u16>)
        requires
            reservoir_wf(reservoir_state(old(self).reservoir())),
            reservoir_can_sample(reservoir_state(old(self).reservoir())),
            reservoir_outcome(reservoir_state(old(self).reservoir())) == Outcome::Consumed
                ==> old(self).since_start() < usize::MAX,
        ensures
            outcome_kind(o) == reservoir_outcome(reservoir_state(old(self).reservoir())),
            o matches SamplingOutcome::Discarded(v) ==> v == value,
            o matches SamplingOutcome::ConsumedAndRateReduced { factor } ==> factor == 2,
            reservoir_state(final(self).reservoir()) == reservoir_next(
                reservoir_state(old(self).reservoir()),
            ),
            reservoir_appends(reservoir_state(old(self).reservoir())) ==> reservoir_ordered(
                final(self).reservoir(),
            ) == reservoir_ordered(old(self).reservoir()).push(value),
            final(self).since_start() == match outcome_kind(o) {
                Outcome::Discarded => old(self).since_start(),
                Outcome::Consumed => (old(self).since_start() + 1) as usize,
                Outcome::ConsumedAndRateReduced => (old(self).since_start() / 2) as usize,
            },
    {
        let outcome = reservoir_sample(&mut self.buffer, value);
        match outcome {
            SamplingOutcome::Consumed => {
                self.samples_since_start = self.samples_since_start + 1;
            },
            SamplingOutcome::ConsumedAndRateReduced { factor } => {
                self.samples_since_start = self.samples_since_start / factor as usize;
            },
            _ => (),
        }
        outcome
    }
}


/// Samples kept before a trigger and after a pulse.
pub const MARGIN_SAMPLES: usize = 100;
/// Capacity of the reservoir that follows a pulse.
pub const SAMPLING_BUFFER_LEN: usize = 512;
/// Capacity of the buffer that holds a finished measurement.
pub const SAMPLING_BUFFER_LEN_WITH_MARGINS: usize = SAMPLING_BUFFER_LEN + 2 * MARGIN_SAMPLES;

/// The samples of a finished measurement.
pub type ResultBuffer = heapless::HistoryBuffer<u16, 712>;

/// A finished measurement.
pub struct MeasurementResult {
    pub duration_micros: u64,
    pub integrated_duration_micros: u64,
    pub sample_buffer: ResultBuffer,
    pub samples_since_start: usize,
    pub samples_since_end: usize,
    pub sample_rate: SamplingRate,
}

/// A finished measurement with its buffer and rate seen through their
/// contents.
pub struct ResultView {
    pub duration_micros: u64,
    pub integrated_duration_micros: u64,
    pub samples: (Seq<u16>, Seq<u16>),
    pub samples_since_start: usize,
    pub samples_since_end: usize,
    pub rate: (u32, u32),
}

pub open spec fn result_view(r: MeasurementResult) -> ResultView {
    ResultView {
        duration_micros: r.duration_micros,
        integrated_duration_micros: r.integrated_duration_micros,
        samples: history712(r.sample_buffer),
        samples_since_start: r.samples_since_start,
        samples_since_end: r.samples_since_end,
        rate: rate_state(r.sample_rate),
    }
}

/// The phases of a measurement.
pub enum MeasurementState<M: LaxMonotonic> {
    /// Waiting for the light to rise above `trigger_high`.
    Idle { trigger_high: u16, trigger_low: u16 },
    /// Following a pulse until the light falls below `trigger_low`.
    Measuring {
        since: M::Instant,
        peak: u16,
        integrated: u64,
        trigger_low: u16,
        head_buffer_samples: usize,
        samples_since_trigger: usize,
    },
    /// Collecting the margin after the pulse.
    Trailing {
        head_buffer_samples: usize,
        tail_sample_rate: SamplingRate,
        samples_since_end: usize,
        duration_micros: u64,
        integrated_duration_micros: u64,
    },
    Done(MeasurementResult),
}

/// A phase, with its clock readings as instants of type `I`.
pub enum PhaseView<I> {
    Idle { trigger_high: u16, trigger_low: u16 },
    Measuring {
        since: I,
        peak: u16,
        integrated: u64,
        trigger_low: u16,
        head_buffer_samples: usize,
        samples_since_trigger: usize,
    },
    Trailing {
        head_buffer_samples: usize,
        tail_rate: (u32, u32),
        samples_since_end: usize,
        duration_micros: u64,
        integrated_duration_micros: u64,
    },
    Done(ResultView),
}

pub open spec fn phase_view<M: LaxMonotonic>(s: MeasurementState<M>) -> PhaseView<M::Instant> {
    match s {
        MeasurementState::Idle { trigger_high, trigger_low } => PhaseView::Idle { trigger_high, trigger_low },
        MeasurementState::Measuring { since, peak, integrated, trigger_low, head_buffer_samples, samples_since_trigger } =>
            PhaseView::Measuring { since, peak, integrated, trigger_low, head_buffer_samples, samples_since_trigger },
        MeasurementState::Trailing {
            head_buffer_samples,
            tail_sample_rate,
            samples_since_end,
            duration_micros,
            integrated_duration_micros,
        } => PhaseView::Trailing {
            head_buffer_samples,
            tail_rate: rate_state(tail_sample_rate),
            samples_since_end,
            duration_micros,
            integrated_duration_micros,
        },
        MeasurementState::Done(r) => PhaseView::Done(result_view(r)),
    }
}

/// A measurement: the margin before the trigger, the margin after the
/// pulse, the reservoir that follows the pulse, and the phase.
pub struct MeasurementView<I> {
    pub head: (Seq<u16>, Seq<u16>),
    pub tail: (Seq<u16>, Seq<u16>),
    pub reservoir: SamplingReservoir<u16, 512>,
    pub phase: PhaseView<I>,
}

/// Detects and times one light pulse.
pub struct Measurement<M: LaxMonotonic> {
    head_buffer: heapless::HistoryBuffer<u16, 100>,
    tail_buffer: heapless::HistoryBuffer<u16, 100>,
    sampling_buffer: SamplingReservoir<u16, 512>,
    state: MeasurementState<M>,
}

impl<M: LaxMonotonic> View for Measurement<M> {
    type V = MeasurementView<M::Instant>;

    closed spec fn view(&self) -> MeasurementView<M::Instant> {
        MeasurementView {
            head: history100(self.head_buffer),
            tail: history100(self.tail_buffer),
            reservoir: self.sampling_buffer,
            phase: phase_view(self.state),
        }
    }
}

pub open spec fn larger(a: u16, b: u16) -> u16 {
    if a >= b { a } else { b }
}

/// Where the integration of the pre-trigger margin starts: the index that
/// a reversed enumeration pairs with the first sample below `low` found
/// from the newest end, which is the margin's length; 0 when every sample
/// is at or above `low`.
pub open spec fn trigger_index(head: Seq<u16>, low: u16) -> nat {
    if exists|i: int| 0 <= i < head.len() && head[i] < low {
        head.len()
    } else {
        0
    }
}

/// Every `k`-th element, starting with the first.
pub open spec fn every_nth(s: Seq<u16>, k: nat) -> Seq<u16> {
    Seq::new(
        if s.len() == 0 { 0 } else { ((s.len() - 1) as nat / k + 1) as nat },
        |i: int| s[i * k],
    )
}

/// The running totals of a pulse (integral, pre-trigger samples, samples
/// since the trigger) after the reservoir has dealt with one more sample.
pub open spec fn measuring_totals(
    integrated: u64,
    head_samples: usize,
    samples: usize,
    value: u16,
    o: Outcome,
) -> (nat, nat, nat) {
    match o {
        Outcome::Discarded => (integrated as nat, head_samples as nat, samples as nat),
        Outcome::Consumed => ((integrated + value) as nat, head_samples as nat, (samples + 1) as nat),
        Outcome::ConsumedAndRateReduced => (
            ((integrated + value) / 2) as nat,
            (head_samples / 2) as nat,
            (samples / 2) as nat,
        ),
    }
}

/// The duration of the pulse weighted by its shape: the area above
/// `low`, scaled by the height from `low` to the peak, turned into a
/// number of samples and then into microseconds of the raw duration.  The
/// product of the sample count and the duration wraps at 2^64.
pub open spec fn integrated_duration(integrated: nat, samples: nat, peak: u16, low: u16, duration: u64) -> u64 {
    let value_samples = (integrated - samples * low) as nat;
    let duration_samples = (value_samples / ((peak - low) as nat)) as u64;
    (vstd::wrapping::u64_specs::wrapping_mul(duration_samples, duration) / (samples as u64)) as u64
}

/// Whether a sample makes the measurement read the clock: the sample that
/// fires the trigger, and the one that ends the pulse.
pub open spec fn reads_clock<I>(a: MeasurementView<I>, value: u16) -> bool {
    match a.phase {
        PhaseView::Idle { trigger_high, .. } => value > trigger_high,
        PhaseView::Measuring { trigger_low, .. } => value < trigger_low,
        _ => false,
    }
}

/// The effect of one sample on a measurement, with `now` the clock's
/// reading taken for it, if any.  A pulse starts at the reading taken when
/// the trigger fires; when it ends, `duration_micros` is the clock's span
/// from that start to the reading taken then, in microseconds.
pub open spec fn step_rel<M: LaxMonotonic>(
    a: MeasurementView<M::Instant>,
    value: u16,
    now: Option<M::Instant>,
    b: MeasurementView<M::Instant>,
) -> bool {
    match a.phase {
        PhaseView::Idle { trigger_high, trigger_low } => {
            let h = ring_write(a.head, 100, value);
            let o = ring_oldest(h);
            let idx = trigger_index(o, trigger_low);
            &&& b.head == h
            &&& b.tail == a.tail
            &&& b.reservoir == a.reservoir
            &&& if value > trigger_high {
                b.phase matches PhaseView::Measuring {
                    since,
                    peak,
                    integrated,
                    trigger_low: l,
                    head_buffer_samples,
                    samples_since_trigger,
                } && now == Some(since) && peak == value && integrated == seq_sum(o.skip(idx as int)) && l == trigger_low
                    && head_buffer_samples == o.len() - idx && samples_since_trigger == 0
            } else {
                b.phase == a.phase
            }
        },
        PhaseView::Measuring { since, peak, integrated, trigger_low, head_buffer_samples, samples_since_trigger } => {
            let rs = reservoir_state(a.reservoir);
            let t = measuring_totals(
                integrated,
                head_buffer_samples,
                samples_since_trigger,
                value,
                reservoir_outcome(rs),
            );
            let p = larger(peak, value);
            &&& b.head == a.head
            &&& b.tail == a.tail
            &&& reservoir_state(b.reservoir) == reservoir_next(rs)
            &&& reservoir_appends(rs) ==> reservoir_ordered(b.reservoir) == reservoir_ordered(a.reservoir).push(value)
            &&& if value < trigger_low {
                b.phase matches PhaseView::Trailing {
                    head_buffer_samples: hs,
                    tail_rate,
                    samples_since_end,
                    duration_micros,
                    integrated_duration_micros,
                } && hs == t.1 && tail_rate == reservoir_next(rs).0 && samples_since_end == 0
                    && (now matches Some(end) && duration_micros == M::span(since, end).micros())
                    && integrated_duration_micros == integrated_duration(t.0, t.2, p, trigger_low, duration_micros)
            } else {
                b.phase == PhaseView::Measuring {
                    since,
                    peak: p,
                    integrated: t.0 as u64,
                    trigger_low,
                    head_buffer_samples: t.1 as usize,
                    samples_since_trigger: t.2 as usize,
                }
            }
        },
        PhaseView::Trailing {
            head_buffer_samples,
            tail_rate,
            samples_since_end,
            duration_micros,
            integrated_duration_micros,
        } => {
            let fires = rate_fires(tail_rate);
            let t2 = if fires { ring_write(a.tail, 100, value) } else { a.tail };
            let e2: int = if fires { samples_since_end + 1 } else { samples_since_end as int };
            let rs = reservoir_state(a.reservoir);
            &&& b.head == a.head
            &&& b.tail == t2
            &&& b.reservoir == a.reservoir
            &&& b.phase == if e2 >= 100 {
                PhaseView::<M::Instant>::Done(ResultView {
                    duration_micros,
                    integrated_duration_micros,
                    samples: (
                        every_nth(ring_oldest(a.head), rs.0.0 as nat) + reservoir_ordered(a.reservoir)
                            + ring_oldest(t2),
                        Seq::<u16>::empty(),
                    ),
                    samples_since_start: (reservoir_len(rs) + ring_len(t2) + head_buffer_samples) as usize,
                    samples_since_end: ring_len(t2) as usize,
                    rate: rs.0,
                })
            } else {
                PhaseView::Trailing {
                    head_buffer_samples,
                    tail_rate: rate_next(tail_rate),
                    samples_since_end: e2 as usize,
                    duration_micros,
                    integrated_duration_micros,
                }
            }
        },
        PhaseView::Done(_) => b == a,
    }
}

/// The order of the phases: waiting, following a pulse, adding the margin
/// after it, done.
pub open spec fn phase_rank<I>(p: PhaseView<I>) -> nat {
    match p {
        PhaseView::Idle { .. } => 0,
        PhaseView::Measuring { .. } => 1,
        PhaseView::Trailing { .. } => 2,
        PhaseView::Done(_) => 3,
    }
}

/// One sample moves a measurement on by at most one phase and never back;
/// it leaves waiting exactly when it is above the high threshold, ends a
/// pulse exactly when it is below the low threshold, and a finished
/// measurement stays as it is.
pub proof fn law_measurement_phases_advance<M: LaxMonotonic>(
    a: MeasurementView<M::Instant>,
    value: u16,
    now: Option<M::Instant>,
    b: MeasurementView<M::Instant>,
)
    requires
        step_rel::<M>(a, value, now, b),
    ensures
        phase_rank(b.phase) == phase_rank(a.phase) || phase_rank(b.phase) == phase_rank(a.phase) + 1,
        a.phase matches PhaseView::Idle { trigger_high, .. } ==> (b.phase is Measuring <==> value > trigger_high),
        a.phase matches PhaseView::Measuring { trigger_low, .. } ==> (b.phase is Trailing <==> value < trigger_low),
        a.phase is Done ==> b == a,
{
}

/// The samples on which `step` does its arithmetic without overflow,
/// underflow or a division by zero.
pub open spec fn step_ok<I>(a: MeasurementView<I>, value: u16) -> bool {
    match a.phase {
        PhaseView::Measuring { peak, integrated, trigger_low, head_buffer_samples, samples_since_trigger, .. } => {
            let rs = reservoir_state(a.reservoir);
            let o = reservoir_outcome(rs);
            let t = measuring_totals(integrated, head_buffer_samples, samples_since_trigger, value, o);
            let p = larger(peak, value);
            &&& reservoir_can_sample(rs)
            &&& o != Outcome::Discarded ==> integrated + value <= u64::MAX
            &&& o == Outcome::Consumed ==> samples_since_trigger + 1 <= usize::MAX
            &&& value < trigger_low ==> {
                &&& t.2 * trigger_low <= t.0
                &&& p > trigger_low
                &&& t.2 > 0
            }
        },
        _ => true,
    }
}

/// The number of samples that taking every `d`-th of `h` samples keeps.
pub open spec fn ceil_div(h: nat, d: nat) -> nat {
    if h == 0 { 0 } else { ((h - 1) as nat / d + 1) as nat }
}

/// The shape that construction and stepping keep; the samples counted
/// before the trigger never outnumber those of the margin before the
/// trigger that the result keeps, so a finished measurement marks its
/// pulse within its samples.
pub open spec fn measurement_wf<I>(a: MeasurementView<I>) -> bool {
    let div = reservoir_state(a.reservoir).0.0 as nat;
    &&& ring_wf(a.head, 100)
    &&& ring_wf(a.tail, 100)
    &&& reservoir_wf(reservoir_state(a.reservoir))
    &&& match a.phase {
        PhaseView::Idle { .. } => div == 1 && ring_len(a.tail) == 0,
        PhaseView::Measuring { head_buffer_samples, .. } => {
            &&& head_buffer_samples <= 100
            &&& head_buffer_samples <= ceil_div(ring_len(a.head), div)
            &&& ring_len(a.tail) == 0
        },
        PhaseView::Trailing { head_buffer_samples, tail_rate, samples_since_end, .. } => {
            &&& head_buffer_samples <= 100
            &&& head_buffer_samples <= ceil_div(ring_len(a.head), div)
            &&& rate_wf(tail_rate)
            &&& samples_since_end < 100
            &&& ring_len(a.tail) == samples_since_end
        },
        PhaseView::Done(r) => {
            &&& ring_wf(r.samples, 712)
            &&& rate_wf(r.rate)
            &&& r.samples_since_end <= r.samples_since_start <= ring_len(r.samples)
        },
    }
}

/// A finished measurement marks its pulse within its samples: the start
/// and the end, counted back from the newest sample, never reach past the
/// oldest one, and the end comes no earlier than the start.
pub proof fn law_result_marks_within_samples<I>(a: MeasurementView<I>)
    requires
        measurement_wf(a),
        a.phase is Done,
    ensures
        a.phase matches PhaseView::Done(r) && r.samples_since_end <= r.samples_since_start <= ring_len(r.samples),
{
}

/// The duration weighted by the pulse's shape never exceeds the raw
/// duration: when the area of `samples` samples lies between `samples`
/// times the low threshold and `samples` times the peak, and the product
/// of the count and the raw duration fits in 64 bits.
pub proof fn law_integrated_duration_within_raw(integrated: nat, samples: nat, peak: u16, low: u16, duration: u64)
    requires
        0 < samples <= u64::MAX,
        peak > low,
        samples * low <= integrated <= samples * peak,
        samples * duration <= u64::MAX,
    ensures
        integrated_duration(integrated, samples, peak, low, duration) <= duration,
{
    let n = samples as int;
    let h = (peak - low) as int;
    let vs = integrated - n * low;
    assert(vs <= n * h) by (nonlinear_arith)
        requires
            vs == integrated - n * low,
            integrated <= n * peak,
            h == peak - low,
    ;
    let ds = vs / h;
    assert(0 <= ds <= n) by (nonlinear_arith)
        requires
            0 <= vs <= n * h,
            h >= 1,
            ds == vs / h,
    {
        vstd::arithmetic::div_mod::lemma_div_is_ordered(vs, n * h, h);
        vstd::arithmetic::div_mod::lemma_div_multiples_vanish(n, h);
    }
    assert(ds * duration <= n * duration) by (nonlinear_arith)
        requires
            0 <= ds <= n,
            duration >= 0,
    ;
    assert(ds as u64 == ds);
    assert(samples as u64 == samples);
    assert((ds * duration) % 0x1_0000_0000_0000_0000int == ds * duration) by {
        vstd::arithmetic::div_mod::lemma_small_mod((ds * duration) as nat, 0x1_0000_0000_0000_0000nat);
    }
    assert((ds * duration) / n <= duration) by (nonlinear_arith)
        requires
            0 <= ds * duration <= n * duration,
            n >= 1,
    {
        vstd::arithmetic::div_mod::lemma_div_is_ordered(ds * duration, n * duration, n);
        vstd::arithmetic::div_mod::lemma_div_multiples_vanish(duration as int, n);
    }
}

/// While following a pulse, the peak is the largest sample seen: after a
/// sample that does not end the pulse it is at least that sample and at
/// least the peak before, and it is one of the two.
pub proof fn law_measurement_peak_is_largest<M: LaxMonotonic>(
    a: MeasurementView<M::Instant>,
    value: u16,
    now: Option<M::Instant>,
    b: MeasurementView<M::Instant>,
)
    requires
        step_rel::<M>(a, value, now, b),
        a.phase is Measuring,
        !(a.phase matches PhaseView::Measuring { trigger_low, .. } && value < trigger_low),
    ensures
        a.phase matches PhaseView::Measuring { peak: p1, .. } && b.phase matches PhaseView::Measuring { peak: p2, .. }
            && p2 >= value && p2 >= p1 && (p2 == value || p2 == p1),
{
}

/// When a pulse ends, its integrated duration never exceeds its raw
/// duration as long as the pulse's area (the running integral, with the
/// closing sample) is at most its sample count times the largest sample
/// seen, which is the peak before the closing sample or that sample.
pub proof fn law_measurement_integrated_within_raw<M: LaxMonotonic>(
    a: MeasurementView<M::Instant>,
    value: u16,
    now: Option<M::Instant>,
    b: MeasurementView<M::Instant>,
)
    requires
        step_rel::<M>(a, value, now, b),
        step_ok(a, value),
        a.phase matches PhaseView::Measuring {
            peak,
            integrated,
            trigger_low,
            head_buffer_samples,
            samples_since_trigger,
            ..
        } && value < trigger_low && {
            let t = measuring_totals(
                integrated,
                head_buffer_samples,
                samples_since_trigger,
                value,
                reservoir_outcome(reservoir_state(a.reservoir)),
            );
            let top: int = if value > peak { value as int } else { peak as int };
            &&& t.0 <= t.2 * top
            &&& b.phase matches PhaseView::Trailing { duration_micros, .. } && t.2 * duration_micros <= u64::MAX
        },
    ensures
        b.phase matches PhaseView::Trailing { duration_micros, integrated_duration_micros, .. }
            && integrated_duration_micros <= duration_micros,
{
    if let PhaseView::Measuring { peak, integrated, trigger_low, head_buffer_samples, samples_since_trigger, .. } = a.phase {
        let t = measuring_totals(
            integrated,
            head_buffer_samples,
            samples_since_trigger,
            value,
            reservoir_outcome(reservoir_state(a.reservoir)),
        );
        if let PhaseView::Trailing { duration_micros, .. } = b.phase {
            law_integrated_duration_within_raw(t.0, t.2, larger(peak, value), trigger_low, duration_micros);
        }
    }
}

/// A finished measurement keeps all its samples at the rate it reports:
/// it opens with the margin before the trigger taken every `divisor`-th
/// sample, `divisor` being the result's rate divisor, so that margin
/// contributes the rounded-up quotient of its length by the divisor; the
/// reservoir's samples and the margin after the pulse follow.
pub proof fn law_result_at_one_rate<M: LaxMonotonic>(
    a: MeasurementView<M::Instant>,
    value: u16,
    now: Option<M::Instant>,
    b: MeasurementView<M::Instant>,
)
    requires
        measurement_wf(a),
        step_rel::<M>(a, value, now, b),
        a.phase is Trailing,
        b.phase is Done,
    ensures
        b.phase matches PhaseView::Done(r) && {
            let h = ring_oldest(a.head);
            let d = r.rate.0 as int;
            let n = ceil_div(h.len(), d as nat) as int;
            &&& d >= 1
            &&& r.samples.1.len() == 0
            &&& r.samples.0.len() == n + reservoir_ordered(a.reservoir).len() + ring_len(b.tail)
            &&& forall|i: int| 0 <= i < n ==> #[trigger] r.samples.0[i] == h[i * d]
            &&& r.samples.0.skip(n) == reservoir_ordered(a.reservoir) + ring_oldest(b.tail)
        },
{
    if let PhaseView::Done(r) = b.phase {
        let h = ring_oldest(a.head);
        let d = r.rate.0 as int;
        let n = ceil_div(h.len(), d as nat) as int;
        let e = every_nth(h, d as nat);
        assert(e.len() == n);
        assert(r.samples.0 == e + reservoir_ordered(a.reservoir) + ring_oldest(b.tail));
        assert(r.samples.0.skip(n) =~= reservoir_ordered(a.reservoir) + ring_oldest(b.tail));
        assert forall|i: int| 0 <= i < n implies #[trigger] r.samples.0[i] == h[i * d] by {
            assert(r.samples.0[i] == e[i]);
        }
    }
}

/// Once a pulse has ended while the reservoir still samples at its full
/// rate, the margin after it takes exactly 100 more samples, whatever they
/// are: the measurement is still adding the margin after each of the first
/// 99 and is done after the 100th, with 100 samples after the end.
pub proof fn law_trailing_margin_completes<M: LaxMonotonic>(
    vs: Seq<MeasurementView<M::Instant>>,
    values: Seq<u16>,
    readings: Seq<Option<M::Instant>>,
)
    requires
        values.len() == 100,
        readings.len() == 100,
        vs.len() == 101,
        forall|k: int| 0 <= k < 100 ==> #[trigger] step_rel::<M>(vs[k], values[k], readings[k], vs[k + 1]),
        measurement_wf(vs[0]),
        vs[0].phase matches PhaseView::Trailing { tail_rate, samples_since_end, .. } && tail_rate.0 == 1
            && samples_since_end == 0,
    ensures
        forall|k: int|
            1 <= k < 100 ==> ((#[trigger] vs[k]).phase matches PhaseView::Trailing { samples_since_end, .. }
                && samples_since_end == k),
        vs[100].phase matches PhaseView::Done(r) && r.samples_since_end == 100,
{
    assert forall|k: int| 0 <= k < 100 implies step_link::<M>(#[trigger] vs[k], values[k], readings[k], vs[k + 1]) by {
        reveal(step_link);
        assert(step_rel::<M>(vs[k], values[k], readings[k], vs[k + 1]));
    }
    assert(trailing_at::<M::Instant>(vs[0], 0));
    assert forall|k: int| 1 <= k < 100 implies ((#[trigger] vs[k]).phase matches PhaseView::Trailing {
        samples_since_end,
        ..
    } && samples_since_end == k) by {
        lemma_trailing_steps::<M>(vs, values, readings, k);
    }
    lemma_trailing_steps::<M>(vs, values, readings, 99);
    assert(step_link::<M>(vs[99], values[99], readings[99], vs[100]));
    lemma_trailing_step::<M>(vs[99], values[99], readings[99], vs[100], 99);
}

proof fn lemma_trailing_steps<M: LaxMonotonic>(
    vs: Seq<MeasurementView<M::Instant>>,
    values: Seq<u16>,
    readings: Seq<Option<M::Instant>>,
    n: int,
)
    requires
        values.len() == 100,
        readings.len() == 100,
        vs.len() == 101,
        forall|k: int| 0 <= k < 100 ==> step_link::<M>(#[trigger] vs[k], values[k], readings[k], vs[k + 1]),
        trailing_at::<M::Instant>(vs[0], 0),
        0 <= n < 100,
    ensures
        trailing_at::<M::Instant>(vs[n], n),
    decreases n,
{
    if n > 0 {
        lemma_trailing_steps::<M>(vs, values, readings, n - 1);
        assert(step_link::<M>(vs[n - 1], values[n - 1], readings[n - 1], vs[n]));
        lemma_trailing_step::<M>(vs[n - 1], values[n - 1], readings[n - 1], vs[n], n - 1);
    }
}

/// One step of a run, kept folded while reasoning about whole runs.
#[verifier::opaque]
spec fn step_link<M: LaxMonotonic>(
    a: MeasurementView<M::Instant>,
    value: u16,
    now: Option<M::Instant>,
    b: MeasurementView<M::Instant>,
) -> bool {
    step_rel::<M>(a, value, now, b)
}

/// Adding the margin at the full rate with `e` samples of it so far.
spec fn trailing_at<I>(a: MeasurementView<I>, e: int) -> bool {
    &&& a.phase matches PhaseView::Trailing { tail_rate, samples_since_end, .. } && tail_rate == (1u32, 0u32)
        && samples_since_end == e
    &&& ring_wf(a.tail, 100)
    &&& ring_len(a.tail) == e
}

proof fn lemma_trailing_step<M: LaxMonotonic>(
    a: MeasurementView<M::Instant>,
    value: u16,
    now: Option<M::Instant>,
    b: MeasurementView<M::Instant>,
    e: int,
)
    requires
        step_link::<M>(a, value, now, b),
        trailing_at::<M::Instant>(a, e),
        0 <= e < 100,
    ensures
        e + 1 < 100 ==> trailing_at::<M::Instant>(b, e + 1),
        e + 1 == 100 ==> (b.phase matches PhaseView::Done(r) && r.samples_since_end == 100),
{
    reveal(step_link);
    lemma_ring_write(a.tail, 100, value);
    assert(rate_next((1u32, 0u32)) == (1u32, 0u32));
}

/// Halving the count of kept samples keeps it within what taking every
/// other one of the kept samples leaves.
proof fn lemma_ceil_div_halves(hs: nat, h: nat, d: nat)
    requires
        d >= 1,
        hs <= ceil_div(h, d),
    ensures
        hs / 2 <= ceil_div(h, 2 * d),
{
    if h > 0 {
        let m = ((h - 1) as nat / d) as int;
        vstd::arithmetic::div_mod::lemma_div_denominator((h - 1) as int, d as int, 2);
        assert(m / 2 == ((h - 1) as int) / ((d * 2) as int));
        assert((m + 1) / 2 <= m / 2 + 1);
        assert(hs / 2 <= (m + 1) / 2);
    }
}

/// The index that `enumerate().rev().find(..)` pairs with the newest sample
/// below `low` (0 when there is none); the walk's reported length is the
/// buffer's length, so a found sample is paired with that length.
fn last_index_below(buf: &heapless::HistoryBuffer<u16, 100>, low: u16) -> (r: usize)
    requires
        ring_wf(history100(*buf), 100),
    ensures
        r == trigger_index(ring_oldest(history100(*buf)), low),
{
    let ghost o = ring_oldest(history100(*buf));
    let mut it = HistoryBufferDoubleEndedIterator::new(buf);
    loop
        invariant
            o == ring_oldest(history100(*buf)),
            it.contents() == o,
            it.position().1 <= o.len(),
            forall|j: int| it.position().1 <= j < o.len() ==> o[j] >= low,
        decreases it.position().1,
    {
        match it.next_back() {
            None => {
                assert(it.position().1 == 0);
                assert forall|i: int| 0 <= i < o.len() implies !(o[i] < low) by {}
                assert(trigger_index(o, low) == 0);
                return 0;
            },
            Some(x) => {
                let ghost p = it.position().1 as int;
                assert(p < o.len());
                assert(x == o[p]);
                if x < low {
                    let i = it.len();
                    assert(0 <= p < o.len() && o[p] < low);
                    assert(trigger_index(o, low) == o.len());
                    assert(i == o.len());
                    return i;
                }
            },
        }
    }
}

/// Sum of `v[start..]`, widened to `u64`.
fn sum_from(v: &Vec<u16>, start: usize) -> (r: u64)
    requires
        start <= v.len(),
        v.len() <= 712,
    ensures
        r == seq_sum(v@.skip(start as int)),
{
    let mut acc: u64 = 0;
    let mut i: usize = start;
    while i < v.len()
        invariant
            start <= i <= v.len(),
            v.len() <= 712,
            acc == seq_sum(v@.subrange(start as int, i as int)),
        decreases v.len() - i,
    {
        proof {
            assert(v@.subrange(start as int, i as int + 1).drop_last() =~= v@.subrange(start as int, i as int));
            lemma_seq_sum_bound(v@.subrange(start as int, i as int + 1));
        }
        acc = acc + v[i] as u64;
        i = i + 1;
    }
    assert(v@.subrange(start as int, v.len() as int) =~= v@.skip(start as int));
    acc
}

/// Every `k`-th sample, starting with the first (`step_by(k)`).
fn every_nth_exec(v: &Vec<u16>, k: usize) -> (r: Vec<u16>)
    requires
        k > 0,
    ensures
        r@ == every_nth(v@, k as nat),
{
    let mut out: Vec<u16> = Vec::new();
    let count: usize = if v.len() == 0 { 0 } else { (v.len() - 1) / k + 1 };
    let mut j: usize = 0;
    while j < count
        invariant
            k > 0,
            count == (if v@.len() == 0 { 0 } else { ((v@.len() - 1) as nat / k as nat + 1) as nat }),
            j <= count,
            out@.len() == j,
            forall|t: int| 0 <= t < j ==> out@[t] == v@[t * k],
        decreases count - j,
    {
        assert(j * k < v.len()) by (nonlinear_arith)
            requires
                j < count,
                count == (v.len() - 1) / (k as int) + 1,
                v.len() > 0,
                k > 0,
        {
            assert(j <= (v.len() - 1) / (k as int));
            assert(j * k <= ((v.len() - 1) / (k as int)) * k);
            assert(((v.len() - 1) / (k as int)) * k <= v.len() - 1);
        }
        out.push(v[j * k]);
        j = j + 1;
    }
    assert(out@ =~= every_nth(v@, k as nat));
    out
}

/// Writes `v` into a result buffer that holds fewer than its capacity.
fn extend_712(b: &mut ResultBuffer, v: &Vec<u16>)
    requires
        history712(*old(b)).1.len() == 0,
        history712(*old(b)).0.len() + v.len() <= 712,
    ensures
        history712(*final(b)) == (history712(*old(b)).0 + v@, Seq::<u16>::empty()),
{
    let ghost start = history712(*b).0;
    let mut i: usize = 0;
    while i < v.len()
        invariant
            i <= v.len(),
            start.len() + v.len() <= 712,
            history712(*b) == (start + v@.take(i as int), Seq::<u16>::empty()),
        decreases v.len() - i,
    {
        h712_write(b, v[i]);
        assert(start + v@.take(i as int + 1) =~= (start + v@.take(i as int)).push(v@[i as int]));
        i = i + 1;
    }
    assert(v@.take(v.len() as int) =~= v@);
}


impl<M: LaxMonotonic> Measurement<M> {
    /// Whether the buffers, rate dividers and counters have the shape that
    /// construction and stepping keep.
    pub open spec fn wf(&self) -> bool {
        measurement_wf(self@)
    }

    /// A measurement waiting for a pulse; the thresholds that the trigger
    /// settings give for the calibration value are raised to at least 5
    /// (low) and 10 (high) above the calibration value.
    pub fn new(calibration_value: u16, threshold_low: u16, threshold_high: u16) -> (m: Self)
        requires
            calibration_value + 10 <= u16::MAX,
        ensures
            m.wf(),
            m@.head == (Seq::<u16>::empty(), Seq::<u16>::empty()),
            m@.tail == (Seq::<u16>::empty(), Seq::<u16>::empty()),
            reservoir_state(m@.reservoir) == ((1u32, 0u32), 0nat, 0nat),
            m@.phase == (PhaseView::<M::Instant>::Idle {
                trigger_low: larger(threshold_low, (calibration_value + 5) as u16),
                trigger_high: larger(threshold_high, (calibration_value + 10) as u16),
            }),
    {
        let low_floor = calibration_value + 5;
        let high_floor = calibration_value + 10;
        Measurement {
            head_buffer: h100_new(),
            tail_buffer: h100_new(),
            sampling_buffer: reservoir_new(),
            state: MeasurementState::Idle {
                trigger_low: if threshold_low >= low_floor { threshold_low } else { low_floor },
                trigger_high: if threshold_high >= high_floor { threshold_high } else { high_floor },
            },
        }
    }

    /// A measurement that is already done, with a pulse of `ms`
    /// milliseconds and no samples.
    pub fn new_debug_duration(ms: u32) -> (m: Self)
        ensures
            m.wf(),
            m@.head == (Seq::<u16>::empty(), Seq::<u16>::empty()),
            m@.tail == (Seq::<u16>::empty(), Seq::<u16>::empty()),
            reservoir_state(m@.reservoir) == ((1u32, 0u32), 0nat, 0nat),
            m@.phase == PhaseView::<M::Instant>::Done((ResultView {
                duration_micros: (ms * 1000) as u64,
                integrated_duration_micros: (ms * 1000) as u64,
                samples: (Seq::<u16>::empty(), Seq::<u16>::empty()),
                samples_since_start: 0,
                samples_since_end: 0,
                rate: (1u32, 0u32),
            })),
    {
        Measurement {
            head_buffer: h100_new(),
            tail_buffer: h100_new(),
            sampling_buffer: reservoir_new(),
            state: MeasurementState::Done(MeasurementResult {
                sample_buffer: h712_new(),
                duration_micros: ms as u64 * 1000,
                integrated_duration_micros: ms as u64 * 1000,
                samples_since_start: 0,
                samples_since_end: 0,
                sample_rate: rate_new(1),
            }),
        }
    }

    pub fn is_done(&self) -> (b: bool)
        ensures
            b == (self@.phase is Done),
    {
        match self.state {
            MeasurementState::Done(_) => true,
            _ => false,
        }
    }

    /// Whether `value` makes the measurement read the clock.
    pub fn reads_clock(&self, value: u16) -> (b: bool)
        ensures
            b == reads_clock(self@, value),
    {
        match &self.state {
            MeasurementState::Idle { trigger_high, .. } => value > *trigger_high,
            MeasurementState::Measuring { trigger_low, .. } => value < *trigger_low,
            _ => false,
        }
    }

    /// Feeds one sample to the measurement, reading the clock when the
    /// sample fires the trigger or ends the pulse.
    pub fn step(&mut self, value: u16)
        requires
            old(self).wf(),
            step_ok(old(self)@, value),
        ensures
            final(self).wf(),
            exists|now: Option<M::Instant>| #[trigger] step_rel::<M>(old(self)@, value, now, final(self)@),
    {
        let now = if self.reads_clock(value) {
            Some(M::now())
        } else {
            None
        };
        let ghost reading = now;
        self.step_at(value, now);
        assert(step_rel::<M>(old(self)@, value, reading, self@));
    }

    /// Feeds one sample to the measurement, with `now` the clock's reading
    /// for a sample that fires the trigger or ends the pulse.
    pub fn step_at(&mut self, value: u16, now: Option<M::Instant>)
        requires
            old(self).wf(),
            step_ok(old(self)@, value),
            reads_clock(old(self)@, value) ==> now is Some,
        ensures
            final(self).wf(),
            step_rel::<M>(old(self)@, value, now, final(self)@),
    {
        match &mut self.state {
            MeasurementState::Idle { trigger_high, trigger_low } => {
                proof {
                    lemma_ring_write(history100(self.head_buffer), 100, value);
                }
                h100_write(&mut self.head_buffer, value);
                if value > *trigger_high {
                    let start = now.unwrap();
                    let low = *trigger_low;
                    let last_index_below_trigger = last_index_below(&self.head_buffer, low);
                    let head_buf_integrated_samples = h100_len(&self.head_buffer) - last_index_below_trigger;
                    let head = h100_oldest(&self.head_buffer);
                    let head_buf_integrated = sum_from(&head, last_index_below_trigger);
                    proof {
                        let n = ring_len(history100(self.head_buffer));
                        if n > 0 {
                            assert(ceil_div(n, 1) == n);
                        }
                    }
                    self.state = MeasurementState::Measuring {
                        since: start,
                        peak: value,
                        integrated: head_buf_integrated,
                        head_buffer_samples: head_buf_integrated_samples,
                        samples_since_trigger: 0,
                        trigger_low: low,
                    };
                }
            },
            MeasurementState::Measuring {
                since,
                head_buffer_samples,
                samples_since_trigger,
                integrated,
                peak,
                trigger_low,
            } => {
                proof {
                    lemma_reservoir_next_wf(reservoir_state(self.sampling_buffer));
                }
                if value > *peak {
                    *peak = value;
                }
                match reservoir_sample(&mut self.sampling_buffer, value) {
                    SamplingOutcome::Discarded(_) => (),
                    SamplingOutcome::Consumed => {
                        *integrated = *integrated + value as u64;
                        *samples_since_trigger = *samples_since_trigger + 1;
                    },
                    SamplingOutcome::ConsumedAndRateReduced { factor } => {
                        proof {
                            lemma_ceil_div_halves(
                                *head_buffer_samples as nat,
                                ring_len(history100(self.head_buffer)),
                                reservoir_state(old(self).sampling_buffer).0.0 as nat,
                            );
                        }
                        *integrated = *integrated + value as u64;
                        *integrated = *integrated / factor as u64;
                        *head_buffer_samples = *head_buffer_samples / factor as usize;
                        *samples_since_trigger = *samples_since_trigger / factor as usize;
                    },
                }
                if value < *trigger_low {
                    let t_end = now.unwrap();
                    let integrated_value_samples = *integrated - *samples_since_trigger as u64 * *trigger_low as u64;
                    let integrated_duration_samples = integrated_value_samples / (*peak - *trigger_low) as u64;
                    let elapsed = M::elapsed(since, &t_end);
                    let duration_micros = elapsed.to_micros();
                    assert(duration_micros == M::span(*since, t_end).micros());
                    let integrated_duration_micros = integrated_duration_samples.wrapping_mul(duration_micros)
                        / *samples_since_trigger as u64;
                    let hs = *head_buffer_samples;
                    self.state = MeasurementState::Trailing {
                        duration_micros,
                        tail_sample_rate: reservoir_rate(&self.sampling_buffer),
                        head_buffer_samples: hs,
                        samples_since_end: 0,
                        integrated_duration_micros,
                    };
                }
            },
            MeasurementState::Trailing {
                duration_micros,
                tail_sample_rate,
                head_buffer_samples,
                samples_since_end,
                integrated_duration_micros,
            } => {
                proof {
                    lemma_ring_write(history100(self.tail_buffer), 100, value);
                    lemma_rate_next_wf(rate_state(*tail_sample_rate));
                }
                if rate_step(tail_sample_rate) {
                    h100_write(&mut self.tail_buffer, value);
                    *samples_since_end = *samples_since_end + 1;
                }
                let sample_rate = reservoir_rate(&self.sampling_buffer);
                if *samples_since_end >= MARGIN_SAMPLES {
                    let divisor = rate_divisor(&sample_rate);
                    let head = h100_oldest(&self.head_buffer);
                    let head_part = every_nth_exec(&head, divisor as usize);
                    let ordered = reservoir_ordered_values(&self.sampling_buffer);
                    let tail = h100_oldest(&self.tail_buffer);
                    let mut final_buffer: ResultBuffer = h712_new();
                    proof {
                        assert(head_part@.len() <= head@.len()) by (nonlinear_arith)
                            requires
                                head_part@.len() == (if head@.len() == 0 { 0 } else {
                                    ((head@.len() - 1) as nat / divisor as nat + 1) as nat
                                }),
                                divisor >= 1,
                        {
                            if head@.len() > 0 {
                                assert((head@.len() - 1) as nat / divisor as nat <= (head@.len() - 1) as nat);
                            }
                        }
                    }
                    extend_712(&mut final_buffer, &head_part);
                    extend_712(&mut final_buffer, &ordered);
                    extend_712(&mut final_buffer, &tail);
                    let since_start = reservoir_len_of(&self.sampling_buffer) + h100_len(&self.tail_buffer)
                        + *head_buffer_samples;
                    let since_end = h100_len(&self.tail_buffer);
                    let result = MeasurementResult {
                        duration_micros: *duration_micros,
                        integrated_duration_micros: *integrated_duration_micros,
                        samples_since_start: since_start,
                        samples_since_end: since_end,
                        sample_buffer: final_buffer,
                        sample_rate,
                    };
                    proof {
                        assert(result_view(result).samples.0 =~= every_nth(
                            ring_oldest(history100(self.head_buffer)),
                            reservoir_state(self.sampling_buffer).0.0 as nat,
                        ) + reservoir_ordered(self.sampling_buffer) + ring_oldest(history100(self.tail_buffer)));
                    }
                    self.state = MeasurementState::Done(result);
                }
            },
            MeasurementState::Done(_) => (),
        }
    }

    /// Whether `step` can take `value` without an arithmetic overflow,
    /// underflow or division by zero.
    pub fn can_step(&self, value: u16) -> (ok: bool)
        requires
            self.wf(),
        ensures
            ok == step_ok(self@, value),
    {
        match &self.state {
            MeasurementState::Measuring {
                peak,
                integrated,
                trigger_low,
                head_buffer_samples,
                samples_since_trigger,
                ..
            } => {
                let mut rate = reservoir_rate(&self.sampling_buffer);
                let fires = rate_step(&mut rate);
                let stored = reservoir_stored(&self.sampling_buffer);
                let seen = reservoir_seen(&self.sampling_buffer);
                let divisor = rate_divisor(&rate);
                let reduces = stored >= 512 && (stored - 512) % 256 == 0;
                if seen == usize::MAX {
                    return false;
                }
                if fires && stored == usize::MAX {
                    return false;
                }
                if fires && reduces && divisor > u32::MAX / 2 {
                    return false;
                }
                if fires && *integrated > u64::MAX - value as u64 {
                    return false;
                }
                if fires && !reduces && *samples_since_trigger == usize::MAX {
                    return false;
                }
                if value < *trigger_low {
                    let (i2, s2): (u64, usize) = if !fires {
                        (*integrated, *samples_since_trigger)
                    } else if reduces {
                        ((*integrated + value as u64) / 2, *samples_since_trigger / 2)
                    } else {
                        (*integrated + value as u64, *samples_since_trigger + 1)
                    };
                    let p = if value > *peak { value } else { *peak };
                    let low = *trigger_low;
                    assert((s2 as int) * (low as int) <= 0xFFFF_FFFF_FFFF_FFFFint * 0xFFFFint) by (nonlinear_arith)
                        requires
                            0 <= s2 <= 0xFFFF_FFFF_FFFF_FFFFint,
                            0 <= low <= 0xFFFFint,
                    ;
                    if (s2 as u128) * (low as u128) > i2 as u128 {
                        return false;
                    }
                    if p <= *trigger_low {
                        return false;
                    }
                    if s2 == 0 {
                        return false;
                    }
                }
                true
            },
            _ => true,
        }
    }

    /// The finished measurement, if the measurement is done.
    pub fn take_result(self) -> (r: Option<MeasurementResult>)
        ensures
            match self@.phase {
                PhaseView::Done(v) => r matches Some(res) && result_view(res) == v,
                _ => r is None,
            },
    {
        match self.state {
            MeasurementState::Done(result) => Some(result),
            _ => None,
        }
    }

    /// The finished measurement, if the measurement is done.
    pub fn result(&self) -> (r: Option<&MeasurementResult>)
        ensures
            match self@.phase {
                PhaseView::Done(v) => r matches Some(res) && result_view(*res) == v,
                _ => r is None,
            },
    {
        match &self.state {
            MeasurementState::Done(result) => Some(result),
            _ => None,
        }
    }
}

} // verus!
