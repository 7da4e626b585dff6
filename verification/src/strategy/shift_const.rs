//! A saturating integrating register for the shift strategy.

use vstd::prelude::*;

use crate::active::Active;
use crate::debounced::Debounced;
use crate::status::Status;
use crate::strategy::{NumericType, Shifter, Strategy};

verus! {

/// A shift strategy whose register integrates by single saturating steps.
pub type IntegrandShifter<A> = Shifter<A, Integrand>;

/// A debounced input over an [`IntegrandShifter`].
pub type DebouncedIntegrandShift<A, F> = Debounced<A, IntegrandShifter<A>, F>;

/// A register for the [`Shifter`] strategy that moves by saturating single
/// steps inside `[0, bound]`: integrating behaviour in a shifter's shape.
#[derive(Debug, Copy, Clone, PartialEq, Eq, Structural)]
pub struct Integrand {
    v: u8,
    top: u8,
}

impl NumericType for Integrand {
    closed spec fn value(self) -> int {
        self.v as int
    }

    open spec fn min_of(self) -> int {
        0
    }

    closed spec fn max_of(self) -> int {
        self.top as int
    }

    closed spec fn inv(self) -> bool {
        self.v <= self.top
    }

    closed spec fn shl_spec(self) -> Self {
        Integrand { v: (self.v + 1) as u8, top: self.top }
    }

    closed spec fn shr_spec(self) -> Self {
        Integrand { v: (self.v - 1) as u8, top: self.top }
    }

    proof fn lemma_inv_bounds(self) {
    }

    proof fn lemma_shl(self) {
    }

    proof fn lemma_shr(self) {
    }

    fn min_value() -> Self {
        Integrand { v: 0, top: u8::MAX }
    }

    fn max_value() -> Self {
        Integrand { v: u8::MAX, top: u8::MAX }
    }

    fn shl(self) -> Self {
        Integrand { v: self.v.saturating_add(1), top: self.top }
    }

    fn shr(self) -> Self {
        Integrand { v: self.v.saturating_sub(1), top: self.top }
    }

    fn at_min(self) -> bool {
        self.v == 0
    }

    fn at_max(self) -> bool {
        self.v >= self.top
    }
}

/// The integrand register moves by exactly one per shift, and its bounds
/// stay what they were.
pub proof fn lemma_integrand_step(r: Integrand)
    requires
        r.inv(),
    ensures
        r.value() < r.max_of() ==> r.shl_spec().value() == r.value() + 1,
        r.value() > r.min_of() ==> r.shr_spec().value() == r.value() - 1,
        r.shl_spec().min_of() == r.min_of() && r.shl_spec().max_of() == r.max_of(),
        r.shr_spec().min_of() == r.min_of() && r.shr_spec().max_of() == r.max_of(),
{
}

impl<A, F> DebouncedIntegrandShift<A, F> where A: Active, F: Fn() -> bool {
    /// Creates a new integration-debounced input whose register spans
    /// `[0, bound]`, starting settled on the inactive value. A `bound` of
    /// zero is degenerate: every sample reports a settled status at once.
    pub fn with(bound: u8, is_input_high: F) -> (r: Self)
        ensures
            r.strategy_state().inv(),
            r.strategy_state().reg_min() == 0,
            r.strategy_state().reg_max() == bound,
            r.strategy_state().reg_val() == if A::active_spec() is Low {
                bound as int
            } else {
                0
            },
            r.hysteresis_spec() == A::active_spec().spec_not(),
            r.sampler() == is_input_high,
    {
        let start = Integrand {
            v: if A::active_value() == Status::Low {
                bound
            } else {
                0
            },
            top: bound,
        };
        Debounced::new(Shifter::with_reg(start), is_input_high)
    }
}

} // verus!
