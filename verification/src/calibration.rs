//! Calibration against the ambient light level: every 50th sample is kept
//! until 1024 of them are collected, then their average, minimum and maximum
//! become the calibration result.
use vstd::prelude::*;
use infinity_sampler::SamplingRate;
use crate::ring::{history1024, ring_len, ring_raw, ring_wf, ring_write, lemma_ring_write, h1024_new, h1024_write, h1024_len, h1024_raw};
use crate::sampler::{rate_fires, rate_next, rate_state, rate_wf, rate_new, rate_step, lemma_rate_next_wf};
use crate::stats::{seq_max, seq_min, seq_sum, lemma_mean_between, lemma_seq_sum_bound, max_u16, min_u16, sum_u64};

verus! {

/// Number of samples that make up a calibration.
pub const CALIBRATION_SAMPLES: usize = 1024;
/// Only every this many-th sample is kept while calibrating.
pub const CALIBRATION_SAMPLE_RATE_DIVISOR: u32 = 50;

/// Ambient light statistics.
#[derive(Clone, Copy, Debug)]
pub struct CalibrationResult {
    pub average: u16,
    pub min: u16,
    pub max: u16,
}

impl Default for CalibrationResult {
    fn default() -> (r: Self)
        ensures
            r == (CalibrationResult { average: 0, min: 0, max: 0 }),
    {
        CalibrationResult { average: 0, min: 0, max: 0 }
    }
}

/// A calibration that is finished or still collecting samples.
pub enum CalibrationState {
    Done(CalibrationResult),
    InProgress { buffer: heapless::HistoryBuffer<u16, 1024>, rate: SamplingRate },
}

/// What a calibration holds: its result, or the samples kept so far and
/// the state of the rate divider.
pub enum CalibrationView {
    Done(CalibrationResult),
    InProgress((Seq<u16>, Seq<u16>), (u32, u32)),
}

impl View for CalibrationState {
    type V = CalibrationView;

    open spec fn view(&self) -> CalibrationView {
        match self {
            CalibrationState::Done(r) => CalibrationView::Done(*r),
            CalibrationState::InProgress { buffer, rate } => CalibrationView::InProgress(
                history1024(*buffer),
                rate_state(*rate),
            ),
        }
    }
}

/// The result computed from a full set of samples.
pub open spec fn summarize(s: Seq<u16>) -> CalibrationResult {
    CalibrationResult {
        average: (seq_sum(s) / s.len()) as u16,
        min: seq_min(s),
        max: seq_max(s),
    }
}

/// One sample offered to a calibration.
pub open spec fn calibration_step(v: CalibrationView, value: u16) -> CalibrationView {
    match v {
        CalibrationView::Done(r) => CalibrationView::Done(r),
        CalibrationView::InProgress(h, r) => {
            if !rate_fires(r) {
                CalibrationView::InProgress(h, rate_next(r))
            } else {
                let h2 = ring_write(h, 1024, value);
                if ring_len(h2) == 1024 {
                    CalibrationView::Done(summarize(ring_raw(h2)))
                } else {
                    CalibrationView::InProgress(h2, rate_next(r))
                }
            }
        },
    }
}

/// While a calibration collects, no sample lowers its progress, and once
/// it is done its result stays whatever samples follow.
pub proof fn law_calibration_progress_never_falls(v: CalibrationView, value: u16)
    requires
        v matches CalibrationView::InProgress(h, r) ==> ring_wf(h, 1024) && rate_wf(r),
    ensures
        v matches CalibrationView::InProgress(h, _) ==> match calibration_step(v, value) {
            CalibrationView::InProgress(h2, _) => ring_len(h2) >= ring_len(h),
            CalibrationView::Done(_) => true,
        },
        v matches CalibrationView::Done(r) ==> calibration_step(v, value) == CalibrationView::Done(r),
{
    if let CalibrationView::InProgress(h, r) = v {
        lemma_ring_write(h, 1024, value);
    }
}

/// The result of a full set of samples has its average between its
/// minimum and its maximum.
pub proof fn law_calibration_average_between(s: Seq<u16>)
    requires
        s.len() > 0,
    ensures
        summarize(s).min <= summarize(s).average <= summarize(s).max,
{
    lemma_mean_between(s);
}

impl CalibrationState {
    /// Buffers and rate dividers in the shape that their constructors and
    /// updates keep; a collecting calibration is never full, since the
    /// sample that fills it finishes it.
    pub open spec fn wf(&self) -> bool {
        match self@ {
            CalibrationView::Done(_) => true,
            CalibrationView::InProgress(h, r) => ring_wf(h, 1024) && ring_len(h) < 1024 && rate_wf(r),
        }
    }

    /// Starts collecting samples anew.
    pub fn begin(&mut self)
        ensures
            final(self)@ == CalibrationView::InProgress(
                (Seq::<u16>::empty(), Seq::<u16>::empty()),
                (CALIBRATION_SAMPLE_RATE_DIVISOR, 0u32),
            ),
            final(self).wf(),
    {
        *self = CalibrationState::InProgress {
            buffer: h1024_new(),
            rate: rate_new(CALIBRATION_SAMPLE_RATE_DIVISOR),
        };
    }

    /// Offers one sample; the calibration finishes when its buffer fills.
    pub fn step(&mut self, value: u16)
        requires
            old(self).wf(),
        ensures
            final(self)@ == calibration_step(old(self)@, value),
            final(self).wf(),
    {
        match self {
            CalibrationState::InProgress { buffer, rate } => {
                proof {
                    lemma_rate_next_wf(rate_state(*rate));
                }
                if rate_step(rate) {
                    proof {
                        lemma_ring_write(history1024(*buffer), 1024, value);
                    }
                    h1024_write(buffer, value);
                    if h1024_len(buffer) == 1024 {
                        let values = h1024_raw(buffer);
                        proof {
                            lemma_seq_sum_bound(values@);
                        }
                        let sum = sum_u64(&values);
                        let count = values.len() as u32;
                        let average = (sum / count as u64) as u16;
                        *self = CalibrationState::Done(CalibrationResult {
                            average,
                            min: min_u16(&values),
                            max: max_u16(&values),
                        });
                    }
                }
            },
            CalibrationState::Done(_) => {},
        }
    }

    /// Percentage of the samples collected so far, while collecting; it
    /// never reaches 100.
    pub fn progress(&self) -> (p: Option<u8>)
        requires
            self.wf(),
        ensures
            p == match self@ {
                CalibrationView::InProgress(h, _) => Some((ring_len(h) * 100 / 1024) as u8),
                CalibrationView::Done(_) => None::<u8>,
            },
            p matches Some(x) ==> x <= 99,
    {
        match self {
            CalibrationState::InProgress { buffer, .. } => {
                let len = h1024_len(buffer);
                Some((len * 100 / 1024) as u8)
            },
            CalibrationState::Done(_) => None,
        }
    }
}

impl Default for CalibrationState {
    fn default() -> (s: Self)
        ensures
            s@ == CalibrationView::Done(CalibrationResult { average: 0, min: 0, max: 0 }),
    {
        CalibrationState::Done(CalibrationResult::default())
    }
}

} // verus!
