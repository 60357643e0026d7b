use std::sync::atomic::{AtomicU64, Ordering};

use shutter_tester::clock::{LaxDuration, LaxMonotonic};
use shutter_tester::compacting::{Measurement, RingBuffer, SampleRate, SamplingBuffer};
use shutter_tester::measurement::SamplingBufferWriteResult;

static NOW: AtomicU64 = AtomicU64::new(0);

/// A clock that the test sets by hand, in microseconds.
struct HandClock;

struct Micros(u64);

impl LaxDuration for Micros {
    fn micros(&self) -> u64 {
        self.0
    }

    fn to_micros(&self) -> u64 {
        self.micros()
    }
}

impl LaxMonotonic for HandClock {
    type Instant = u64;
    type Duration = Micros;

    fn now() -> u64 {
        NOW.load(Ordering::SeqCst)
    }

    fn span(since: u64, until: u64) -> Micros {
        Micros(until - since)
    }

    fn elapsed(since: &u64, until: &u64) -> Micros {
        Self::span(*since, *until)
    }
}

fn step(m: &mut Measurement<HandClock>, value: u16) {
    assert!(m.can_step(value));
    m.step(value);
}

#[test]
fn sample_rate_takes_every_third() {
    let mut r = SampleRate::new(3);
    let taken: Vec<bool> = (0..7).map(|_| r.step()).collect();
    assert_eq!(taken, vec![false, false, true, false, false, true, false]);
    r.mul(2);
    assert_eq!(r.sample_rate(), 6);
}

#[test]
fn sampling_buffer_halves_when_full() {
    let mut b = SamplingBuffer::new(RingBuffer::new());
    for v in 0..400u16 {
        assert!(matches!(b.write(v), SamplingBufferWriteResult::Sampled));
    }
    assert_eq!(b.samples_since_start(), 400);
    match b.write(400) {
        SamplingBufferWriteResult::SampledAndCompacted { factor } => assert_eq!(factor, 2),
        _ => panic!("the 401st sample should compact the buffer"),
    }
    assert_eq!(b.samples_since_start(), 200);
    assert_eq!(b.sample_rate().sample_rate(), 2);
    // Now only every second sample is taken.
    assert!(matches!(b.write(7), SamplingBufferWriteResult::Discarded));
    assert!(matches!(b.write(8), SamplingBufferWriteResult::Sampled));
    let inner = b.into_inner();
    let kept: Vec<u16> = inner.oldest_ordered().copied().collect();
    assert_eq!(kept.len(), 202);
    assert_eq!(kept[0], 0);
    assert_eq!(kept[1], 2);
    assert_eq!(kept[200], 400);
    assert_eq!(kept[201], 8);
}

#[test]
fn sampling_buffer_pre_buffer_is_not_counted() {
    let mut b = SamplingBuffer::new(RingBuffer::new());
    b.extend_pre_buffer(&vec![1, 2, 3]);
    assert_eq!(b.samples_since_start(), 0);
    assert!(matches!(b.write(4), SamplingBufferWriteResult::Sampled));
    assert_eq!(b.samples_since_start(), 1);
    let kept: Vec<u16> = b.into_inner().oldest_ordered().copied().collect();
    assert_eq!(kept, vec![1, 2, 3, 4]);
}

#[test]
fn compacting_measurement_times_a_rectangular_pulse() {
    NOW.store(0, Ordering::SeqCst);
    let mut m: Measurement<HandClock> = Measurement::new(100, 200, RingBuffer::new());
    for _ in 0..50 {
        step(&mut m, 50);
    }
    assert!(!m.is_done());
    NOW.store(1000, Ordering::SeqCst);
    step(&mut m, 1000);
    for _ in 0..20 {
        step(&mut m, 1000);
    }
    NOW.store(3000, Ordering::SeqCst);
    step(&mut m, 50);
    for _ in 0..100 {
        step(&mut m, 50);
        assert!(!m.is_done());
    }
    step(&mut m, 50);
    assert!(m.is_done());
    let r = m.take_result().expect("measurement is done");
    assert_eq!(r.duration_micros, 2000);
    // (20050 - 21 * 100) / 900 = 19 samples of full light; 19 * 2000 / 21.
    assert_eq!(r.integrated_duration_micros, 1809);
    assert_eq!(r.sample_buffer.len(), 42);
    assert_eq!(r.samples_since_start, 42);
    assert_eq!(r.samples_since_end, 21);
    let samples: Vec<u16> = r.sample_buffer.oldest_ordered().copied().collect();
    assert_eq!(samples[0], 1000);
    assert_eq!(samples[19], 1000);
    assert_eq!(samples[20], 50);
}

#[test]
fn compacting_measurement_done_is_final() {
    let mut m: Measurement<HandClock> = Measurement::new_debug_duration(12);
    assert!(m.is_done());
    step(&mut m, 4000);
    let r = m.take_result().expect("measurement is done");
    assert_eq!(r.duration_micros, 12000);
    assert_eq!(r.integrated_duration_micros, 12000);
    assert_eq!(r.sample_buffer.len(), 0);
}

#[test]
fn compacting_measurement_not_done_has_no_result() {
    let m: Measurement<HandClock> = Measurement::new(100, 200, RingBuffer::new());
    assert!(m.take_result().is_none());
}

#[test]
fn compacting_pulse_without_area_cannot_be_stepped() {
    // A pulse that ends with its first sample has no area above the low
    // threshold to scale: the step is refused beforehand.
    NOW.store(0, Ordering::SeqCst);
    let mut m: Measurement<HandClock> = Measurement::new(100, 200, RingBuffer::new());
    step(&mut m, 300);
    assert!(!m.can_step(50));
}

#[test]
fn compacting_step_at_times_from_the_given_readings() {
    let mut m: Measurement<HandClock> = Measurement::new(100, 200, RingBuffer::new());
    assert!(!m.reads_clock(150));
    m.step_at(150, None);
    assert!(m.reads_clock(300));
    m.step_at(300, Some(10));
    m.step_at(300, None);
    m.step_at(300, None);
    assert!(m.reads_clock(50));
    assert!(m.can_step(50));
    m.step_at(50, Some(70));
    for _ in 0..101 {
        assert!(!m.reads_clock(50));
        m.step_at(50, None);
    }
    assert!(m.is_done());
    let r = m.take_result().expect("measurement is done");
    assert_eq!(r.duration_micros, 60);
    // The trigger sample is not part of the pulse's samples:
    // (300 * 2 + 50 - 3 * 100) / (300 - 100) = 1 sample of full light; 1 * 60 / 3.
    assert_eq!(r.integrated_duration_micros, 20);
}
