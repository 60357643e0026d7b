//! The clocks that time a pulse.
use vstd::prelude::*;

verus! {

/// A span of time that can be read in microseconds.
pub trait LaxDuration {
    /// The span in whole microseconds.
    spec fn micros(&self) -> u64;

    fn to_micros(&self) -> (us: u64)
        ensures
            us == self.micros(),
    ;
}

/// A clock whose instants can be read and compared.
///
/// `elapsed` is the instant subtraction `until - since` of the clock's
/// instant type, and `span` names its result.
pub trait LaxMonotonic {
    type Instant;
    type Duration: LaxDuration;

    fn now() -> Self::Instant;

    /// The span from `since` to `until`.
    spec fn span(since: Self::Instant, until: Self::Instant) -> Self::Duration;

    fn elapsed(since: &Self::Instant, until: &Self::Instant) -> (d: Self::Duration)
        ensures
            d == Self::span(*since, *until),
    ;
}

/// The core clock frequency of the device, which the cycle counter counts.
pub const SYSCLK: u32 = 84_000_000;

/// A number of core clock cycles at `SYSCLK` hertz.
#[derive(Clone, Copy, Debug, PartialEq, Eq, Structural)]
pub struct CycleDuration {
    pub ticks: u64,
}

/// `fugit::Duration::<u64, 1, 84_000_000>::to_micros` of a duration of
/// `ticks` cycles: the conversion reduces 1_000_000 / 84_000_000 to 1 / 84,
/// so it is the tick count divided by 84, rounded down.
#[verifier::external_body]
fn cycles_to_micros(ticks: u64) -> (us: u64)
    ensures
        us == ticks / 84,
{
    fugit::Duration::<u64, 1, 84_000_000>::from_ticks(ticks).to_micros()
}

impl LaxDuration for CycleDuration {
    /// The duration in whole microseconds at 84 MHz.
    open spec fn micros(&self) -> u64 {
        self.ticks / 84
    }

    fn to_micros(&self) -> (us: u64) {
        cycles_to_micros(self.ticks)
    }
}

} // verus!
