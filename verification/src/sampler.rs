//! The `infinity_sampler` types that decimate the sample stream: a rate
//! divider and a reservoir that keeps an even spread of an unbounded stream.
use vstd::prelude::*;
use infinity_sampler::{SamplingOutcome, SamplingRate, SamplingReservoir};

verus! {

#[verifier::external_type_specification]
#[verifier::external_body]
pub struct ExSamplingRate(infinity_sampler::SamplingRate);

#[verifier::external_type_specification]
#[verifier::external_body]
#[verifier::reject_recursive_types(T)]
pub struct ExSamplingReservoir<T, const N: usize>(infinity_sampler::SamplingReservoir<T, N>);

#[verifier::external_type_specification]
#[verifier::reject_recursive_types(T)]
pub struct ExSamplingOutcome<T>(infinity_sampler::SamplingOutcome<T>);

/// The state of a rate divider: its divisor and the position within the
/// current period.
pub uninterp spec fn rate_state(r: SamplingRate) -> (u32, u32);

/// Every rate divider keeps its position below a non-zero divisor.
pub open spec fn rate_wf(s: (u32, u32)) -> bool {
    s.0 > 0 && s.1 < s.0
}

/// The position after one `step`.
pub open spec fn rate_next(s: (u32, u32)) -> (u32, u32) {
    (s.0, ((s.1 + 1) % (s.0 as int)) as u32)
}

/// What `step` answers: true once every `divisor` steps.
pub open spec fn rate_fires(s: (u32, u32)) -> bool {
    rate_next(s).1 == 0
}

/// `SamplingRate::new(divisor)`.
#[verifier::external_body]
pub(crate) fn rate_new(divisor: u32) -> (r: SamplingRate)
    requires
        divisor > 0,
    ensures
        rate_state(r) == (divisor, 0u32),
{
    SamplingRate::new(divisor)
}

/// `SamplingRate::step`: advances the position and reports whether it
/// wrapped to zero.
#[verifier::external_body]
pub(crate) fn rate_step(r: &mut SamplingRate) -> (fires: bool)
    requires
        rate_wf(rate_state(*old(r))),
    ensures
        rate_state(*final(r)) == rate_next(rate_state(*old(r))),
        fires == rate_fires(rate_state(*old(r))),
{
    r.step()
}

/// `SamplingRate::divisor`.
#[verifier::external_body]
pub(crate) fn rate_divisor(r: &SamplingRate) -> (d: u32)
    ensures
        d == rate_state(*r).0,
{
    r.divisor()
}

pub proof fn lemma_rate_next_wf(s: (u32, u32))
    requires
        rate_wf(s),
    ensures
        rate_wf(rate_next(s)),
{
}

/// Capacity of the reservoir that holds the samples of a pulse.
pub const RESERVOIR_LEN: usize = 512;

/// The state of the pulse reservoir: its rate divider, the number of values
/// it has stored and the number it has been shown.
pub uninterp spec fn reservoir_state(r: SamplingReservoir<u16, 512>) -> ((u32, u32), nat, nat);

/// The values that `ordered_iter` yields, oldest first.
pub uninterp spec fn reservoir_ordered(r: SamplingReservoir<u16, 512>) -> Seq<u16>;

/// The number of values held: the buffer fills up with the first 512
/// stored values and keeps that size.
pub open spec fn reservoir_len(s: ((u32, u32), nat, nat)) -> nat {
    if s.1 < 512 { s.1 } else { 512 }
}

/// The rate divider is sound, and while the rate is undivided every value
/// shown has been stored.
pub open spec fn reservoir_wf(s: ((u32, u32), nat, nat)) -> bool {
    &&& rate_wf(s.0)
    &&& s.0.0 == 1 ==> s.1 == s.2
}

/// Whether a value that the rate divider lets through halves the rate:
/// once the buffer is full, after every further 256 stored values.
pub open spec fn reservoir_reduces(s: ((u32, u32), nat, nat)) -> bool {
    s.1 >= 512 && (s.1 - 512) % 256 == 0
}

/// The kinds of `SamplingOutcome`, without the discarded value.
pub enum Outcome {
    Discarded,
    Consumed,
    ConsumedAndRateReduced,
}

pub open spec fn reservoir_outcome(s: ((u32, u32), nat, nat)) -> Outcome {
    if !rate_fires(s.0) {
        Outcome::Discarded
    } else if reservoir_reduces(s) {
        Outcome::ConsumedAndRateReduced
    } else {
        Outcome::Consumed
    }
}

/// The state after `sample`.
pub open spec fn reservoir_next(s: ((u32, u32), nat, nat)) -> ((u32, u32), nat, nat) {
    let r = rate_next(s.0);
    match reservoir_outcome(s) {
        Outcome::Discarded => (r, s.1, s.2 + 1),
        Outcome::Consumed => (r, s.1 + 1, s.2 + 1),
        Outcome::ConsumedAndRateReduced => (((r.0 * 2) as u32, r.1), s.1 + 1, s.2 + 1),
    }
}

/// Whether `sample` appends its value to the ordered values: while the rate
/// is undivided and the count of values shown stays below the capacity.
pub open spec fn reservoir_appends(s: ((u32, u32), nat, nat)) -> bool {
    s.0.0 == 1 && s.2 + 1 < 512
}

/// Whether `sample` can run without an arithmetic overflow of its counters.
pub open spec fn reservoir_can_sample(s: ((u32, u32), nat, nat)) -> bool {
    &&& s.2 + 1 <= usize::MAX
    &&& rate_fires(s.0) ==> s.1 + 1 <= usize::MAX
    &&& rate_fires(s.0) && reservoir_reduces(s) ==> s.0.0 * 2 <= u32::MAX
}

pub proof fn lemma_reservoir_next_wf(s: ((u32, u32), nat, nat))
    requires
        reservoir_wf(s),
        reservoir_can_sample(s),
    ensures
        reservoir_wf(reservoir_next(s)),
{
}

/// `SamplingReservoir::new`: an empty reservoir at the undivided rate.
#[verifier::external_body]
pub(crate) fn reservoir_new() -> (r: SamplingReservoir<u16, 512>)
    ensures
        reservoir_state(r) == ((1u32, 0u32), 0nat, 0nat),
        reservoir_ordered(r) == Seq::<u16>::empty(),
{
    SamplingReservoir::new()
}

/// The kind of a `SamplingOutcome`.
pub open spec fn outcome_kind(o: SamplingOutcome<u16>) -> Outcome {
    match o {
        SamplingOutcome::Discarded(_) => Outcome::Discarded,
        SamplingOutcome::Consumed => Outcome::Consumed,
        SamplingOutcome::ConsumedAndRateReduced { .. } => Outcome::ConsumedAndRateReduced,
    }
}

/// `SamplingReservoir::sample`: a discarded value comes back, and a rate
/// reduction halves the rate.  While the rate is undivided and fewer than
/// 511 values have been shown, the value is written at the slot numbered
/// by the count shown so far, which is the end of the stored values, and
/// `ordered_iter` yields the slots in storage order: the value is appended.
#[verifier::external_body]
pub(crate) fn reservoir_sample(r: &mut SamplingReservoir<u16, 512>, value: u16) -> (o: SamplingOutcome<u16>)
    requires
        reservoir_wf(reservoir_state(*old(r))),
        reservoir_can_sample(reservoir_state(*old(r))),
    ensures
        outcome_kind(o) == reservoir_outcome(reservoir_state(*old(r))),
        o matches SamplingOutcome::Discarded(v) ==> v == value,
        o matches SamplingOutcome::ConsumedAndRateReduced { factor } ==> factor == 2,
        reservoir_state(*final(r)) == reservoir_next(reservoir_state(*old(r))),
        reservoir_appends(reservoir_state(*old(r))) ==> reservoir_ordered(*final(r)) == reservoir_ordered(
            *old(r),
        ).push(value),
{
    r.sample(value)
}

/// `SamplingReservoir::len`.
#[verifier::external_body]
pub(crate) fn reservoir_len_of(r: &SamplingReservoir<u16, 512>) -> (n: usize)
    ensures
        n == reservoir_len(reservoir_state(*r)),
{
    r.len()
}

/// `SamplingReservoir::samples_stored`.
#[verifier::external_body]
pub(crate) fn reservoir_stored(r: &SamplingReservoir<u16, 512>) -> (n: usize)
    ensures
        n == reservoir_state(*r).1,
{
    r.samples_stored()
}

/// `SamplingReservoir::samples_seen`.
#[verifier::external_body]
pub(crate) fn reservoir_seen(r: &SamplingReservoir<u16, 512>) -> (n: usize)
    ensures
        n == reservoir_state(*r).2,
{
    r.samples_seen()
}

/// `SamplingReservoir::sampling_rate`.
#[verifier::external_body]
pub(crate) fn reservoir_rate(r: &SamplingReservoir<u16, 512>) -> (rate: SamplingRate)
    ensures
        rate_state(rate) == reservoir_state(*r).0,
{
    *r.sampling_rate()
}

/// `SamplingReservoir::ordered_iter`, collected: one value per stored slot.
#[verifier::external_body]
pub(crate) fn reservoir_ordered_values(r: &SamplingReservoir<u16, 512>) -> (v: Vec<u16>)
    ensures
        v@ == reservoir_ordered(*r),
        v@.len() == reservoir_len(reservoir_state(*r)),
{
    r.ordered_iter().copied().collect()
}

} // verus!
