//! Debouncing of a noisy two-state input signal.
//!
//! A [`Debounced`] input owns a settling strategy and a sampling function and
//! turns a stream of raw boolean reads into a stable [`Status`].

use vstd::prelude::*;

pub mod active;
mod debounced;
mod status;
pub mod strategy;

pub use debounced::{Debounced, DebouncedIntegrator, DebouncedShifter};
pub use debounced::{admissible, sampled_many, sampled_once, settles, settles_within};
pub use debounced::{hysteresis_after, lemma_hysteresis_safety, lemma_integrator_settles, lemma_shifter_settles};
pub use status::{Status, lemma_not_involutive};
pub use strategy::DebouncedIntegrandShift;

verus! {

/// Implemented only by the two polarity markers, so that no further
/// marker can be added from outside.
pub trait Sealed {}

/// Number of samples taken at `sample_freq` (in Hz) over `hold_time_ms`
/// (in milliseconds), rounded up when a partial sample would occur.
///
/// This sizes the settling distance of a strategy so that it settles after
/// roughly `hold_time_ms` milliseconds of stable polling.
pub fn samples(sample_freq: usize, hold_time_ms: usize) -> (r: usize)
    requires
        sample_freq * hold_time_ms <= usize::MAX,
    ensures
        1000 * r >= sample_freq * hold_time_ms,
        1000 * r < sample_freq * hold_time_ms + 1000,
        r == 0 <==> sample_freq * hold_time_ms == 0,
{
    let samples_in_1k_secs: usize = sample_freq * hold_time_ms;
    if samples_in_1k_secs > 0 {
        1 + (samples_in_1k_secs - 1) / 1000
    } else {
        0
    }
}

} // verus!
