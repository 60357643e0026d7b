use std::sync::atomic::{AtomicU64, Ordering};

use shutter_tester::calibration::{CalibrationResult, CalibrationState as BufferedCalibration};
use shutter_tester::clock::{LaxDuration, LaxMonotonic};
use infinity_sampler::{SamplingOutcome, SamplingReservoir};
use shutter_tester::measurement::{CalibrationState, Measurement, SamplingBuffer, MARGIN_SAMPLES};

static NOW: AtomicU64 = AtomicU64::new(0);

/// A clock that the test sets by hand, in microseconds.
struct ManualClock;

struct Micros(u64);

impl LaxDuration for Micros {
    fn micros(&self) -> u64 {
        self.0
    }

    fn to_micros(&self) -> u64 {
        self.micros()
    }
}

impl LaxMonotonic for ManualClock {
    type Instant = u64;
    type Duration = Micros;

    fn now() -> u64 {
        NOW.load(Ordering::SeqCst)
    }

    fn span(since: u64, until: u64) -> Micros {
        Micros(until - since)
    }

    fn elapsed(since: &u64, until: &u64) -> Micros {
        Self::span(*since, *until)
    }
}

fn set_time(t: u64) {
    NOW.store(t, Ordering::SeqCst);
}

#[test]
fn calibration_average_of_samples() {
    let mut state = CalibrationState::default();
    assert_eq!(state.finish(), 0);
    state.begin();
    if let CalibrationState::InProgress(ref mut c) = state {
        c.add(10);
        c.add(20);
        c.add(31);
    } else {
        panic!("calibration did not start");
    }
    assert_eq!(state.finish(), 20);
    // A settled calibration keeps its value.
    assert_eq!(state.finish(), 20);
}

#[test]
fn calibration_without_samples_is_zero() {
    let mut state = CalibrationState::Done(7);
    state.begin();
    assert_eq!(state.finish(), 0);
}

#[test]
fn buffered_calibration_keeps_every_fiftieth_sample() {
    let mut state = BufferedCalibration::default();
    assert!(state.progress().is_none());
    state.begin();
    assert_eq!(state.progress(), Some(0));
    // 512 kept samples: half way.
    for i in 0..(512 * 50) {
        state.step((i % 7) as u16);
    }
    assert_eq!(state.progress(), Some(50));
    for i in 0..(512 * 50) {
        state.step(100 + (i % 3) as u16);
    }
    match state {
        BufferedCalibration::Done(CalibrationResult { average, min, max }) => {
            // Every 50th sample is kept: sample 49, 99, ... of each run.
            let first: Vec<u16> = (0..512).map(|k| ((k * 50 + 49) % 7) as u16).collect();
            let second: Vec<u16> = (0..512).map(|k| 100 + ((k * 50 + 49) % 3) as u16).collect();
            let all: Vec<u64> = first.iter().chain(second.iter()).map(|&x| x as u64).collect();
            assert_eq!(average as u64, all.iter().sum::<u64>() / 1024);
            assert_eq!(min, *first.iter().min().unwrap());
            assert_eq!(max, *second.iter().max().unwrap());
        }
        _ => panic!("calibration did not finish"),
    }
}

#[test]
fn measurement_stays_idle_below_threshold() {
    let mut m: Measurement<ManualClock> = Measurement::new(100, 0, 0);
    for _ in 0..1000 {
        assert!(m.can_step(110));
        m.step(110);
    }
    assert!(!m.is_done());
    assert!(m.result().is_none());
}

#[test]
fn measurement_times_a_rectangular_pulse() {
    set_time(1_000);
    let mut m: Measurement<ManualClock> = Measurement::new(100, 150, 200);
    for _ in 0..50 {
        m.step(100);
    }
    // Trigger: above the high threshold.
    m.step(1000);
    for _ in 0..9 {
        m.step(1000);
    }
    set_time(3_000);
    // End of the pulse: below the low threshold.
    assert!(m.can_step(100));
    m.step(100);
    assert!(!m.is_done());
    for _ in 0..MARGIN_SAMPLES - 1 {
        m.step(100);
    }
    assert!(!m.is_done());
    m.step(100);
    assert!(m.is_done());
    let r = m.take_result().unwrap();
    assert_eq!(r.duration_micros, 2_000);
    // Head: every sample was at or above 150?  No: the margin holds
    // samples of 100 < 150, so nothing of the margin is integrated.
    // Pulse: 9 samples of 1000 after the trigger and the closing 100.
    // integrated = 9 * 1000 + 100 = 9100, samples = 10
    // (9100 - 10 * 150) / (1000 - 150) = 7600 / 850 = 8
    // 8 * 2000 / 10 = 1600
    assert_eq!(r.integrated_duration_micros, 1_600);
    assert_eq!(r.samples_since_end, 100);
    assert_eq!(r.samples_since_start, 10 + 100);
    assert_eq!(r.sample_rate.divisor(), 1);
    let samples: Vec<u16> = r.sample_buffer.oldest_ordered().copied().collect();
    // 51 margin samples (50 of 100 and the trigger), 10 pulse samples,
    // 100 trailing samples.
    assert_eq!(samples.len(), 51 + 10 + 100);
    assert_eq!(samples[50], 1000);
    assert_eq!(samples[51], 1000);
    assert_eq!(samples[60], 100);
}

#[test]
fn measurement_done_is_final() {
    let mut m: Measurement<ManualClock> = Measurement::new_debug_duration(12);
    assert!(m.is_done());
    m.step(5000);
    let r = m.result().unwrap();
    assert_eq!(r.duration_micros, 12_000);
    assert_eq!(r.integrated_duration_micros, 12_000);
    assert_eq!(r.samples_since_start, 0);
    assert_eq!(r.sample_buffer.len(), 0);
}

#[test]
fn measurement_thresholds_have_a_floor() {
    // With thresholds below the calibration value the floors apply:
    // high = 110, low = 105.
    let mut m: Measurement<ManualClock> = Measurement::new(100, 0, 0);
    m.step(110);
    assert!(!m.is_done());
    set_time(0);
    m.step(111);
    set_time(10);
    m.step(104);
    for _ in 0..MARGIN_SAMPLES {
        m.step(0);
    }
    let r = m.take_result().unwrap();
    assert_eq!(r.duration_micros, 10);
}

#[test]
fn calibration_counts_samples_and_ignores_order() {
    let mut state = CalibrationState::default();
    state.begin();
    if let CalibrationState::InProgress(ref mut c) = state {
        assert_eq!(c.samples(), 0);
        c.add(u16::MAX);
        c.add(3);
        c.add(u16::MAX);
        assert_eq!(c.samples(), 3);
    }
    let forward = state.finish();
    let mut other = CalibrationState::default();
    other.begin();
    if let CalibrationState::InProgress(ref mut c) = other {
        c.add(u16::MAX);
        c.add(u16::MAX);
        c.add(3);
    }
    let reordered = other.finish();
    // (65535 + 3 + 65535) / 3 = 43691, between the smallest and largest sample.
    assert_eq!(forward, 43_691);
    assert_eq!(forward, reordered);
    assert!(3 <= forward && forward <= u16::MAX);
}

#[test]
fn buffered_calibration_progress_stays_below_hundred() {
    let mut state = BufferedCalibration::default();
    state.begin();
    // 1023 kept samples: the calibration is still collecting.
    for _ in 0..(1023 * 50) {
        state.step(40);
    }
    assert_eq!(state.progress(), Some(99));
    for _ in 0..50 {
        state.step(60);
    }
    assert!(state.progress().is_none());
    match state {
        BufferedCalibration::Done(CalibrationResult { average, min, max }) => {
            // (1023 * 40 + 60) / 1024 = 40
            assert_eq!((average, min, max), (40, 40, 60));
            assert!(min <= average && average <= max);
        }
        _ => panic!("calibration did not finish"),
    }
}

#[test]
fn sampling_buffer_keeps_offered_samples_in_order() {
    let mut b = SamplingBuffer::new(SamplingReservoir::<u16, 512>::new(), 0);
    assert!(b.can_write());
    for v in [5u16, 9, 2, 7] {
        assert!(b.can_write());
        assert!(matches!(b.write(v), SamplingOutcome::Consumed));
    }
    assert_eq!(b.samples_since_start(), 4);
    let kept: Vec<u16> = b.into_inner().ordered_iter().copied().collect();
    assert_eq!(kept, vec![5, 9, 2, 7]);
}

#[test]
fn sampling_buffer_halves_its_count_on_reduction() {
    let mut b = SamplingBuffer::new(SamplingReservoir::<u16, 512>::new(), 0);
    for i in 0..512u16 {
        assert!(matches!(b.write(i), SamplingOutcome::Consumed));
    }
    assert_eq!(b.samples_since_start(), 512);
    match b.write(1000) {
        SamplingOutcome::ConsumedAndRateReduced { factor } => assert_eq!(factor, 2),
        _ => panic!("the 513th sample halves the rate"),
    }
    assert_eq!(b.samples_since_start(), 256);
    assert_eq!(b.sample_rate().divisor(), 2);
    // At half the rate every other sample is discarded and handed back.
    assert!(matches!(b.write(1), SamplingOutcome::Discarded(1)));
    assert!(matches!(b.write(2), SamplingOutcome::Consumed));
    assert_eq!(b.samples_since_start(), 257);
}

#[test]
fn measurement_result_holds_the_pulse_samples() {
    set_time(0);
    let mut m: Measurement<ManualClock> = Measurement::new(100, 150, 200);
    m.step(100);
    m.step(900);
    for v in [910u16, 920, 930] {
        m.step(v);
    }
    set_time(40);
    m.step(120);
    for _ in 0..MARGIN_SAMPLES {
        m.step(101);
    }
    let r = m.take_result().unwrap();
    assert_eq!(r.duration_micros, 40);
    let samples: Vec<u16> = r.sample_buffer.oldest_ordered().copied().collect();
    // The margin before (100 and the trigger), the pulse as offered, and
    // the margin after.
    assert_eq!(&samples[..6], &[100, 900, 910, 920, 930, 120]);
    assert_eq!(samples.len(), 6 + MARGIN_SAMPLES);
    assert_eq!(r.samples_since_end, MARGIN_SAMPLES);
}

#[test]
fn measurement_step_at_times_from_the_given_readings() {
    let mut m: Measurement<ManualClock> = Measurement::new(100, 150, 200);
    assert!(!m.reads_clock(180));
    m.step_at(180, None);
    assert!(m.reads_clock(500));
    m.step_at(500, Some(7_000));
    assert!(!m.reads_clock(600));
    m.step_at(600, None);
    assert!(m.reads_clock(120));
    m.step_at(120, Some(7_250));
    for _ in 0..MARGIN_SAMPLES {
        assert!(!m.reads_clock(100));
        m.step_at(100, None);
    }
    let r = m.take_result().unwrap();
    assert_eq!(r.duration_micros, 250);
    // No margin sample is below 150, so the margin (180 and the trigger 500)
    // is integrated: 180 + 500 + 600 + 120 = 1400 over the 2 samples since
    // the trigger; (1400 - 2 * 150) / (600 - 150) = 2; 2 * 250 / 2.
    assert_eq!(r.integrated_duration_micros, 250);
}
