//! The shift-register settling strategy.

use vstd::prelude::*;

use core::marker::PhantomData;

use crate::active::Active;
use crate::status::Status;
use crate::strategy::{NumericType, Strategy, run_steps};

verus! {

/// Shift strategy for debouncing: a register over a bounded numeric type.
///
/// The register moves towards its largest value on a high sample and
/// towards its smallest on a low one. At or below the smallest value the
/// input is settled low; at or above the largest it is settled high;
/// anywhere in between is unsettled. The register starts settled on the
/// [inactive](crate::active::Active) value.
///
/// Compared to the [`Integrator`](crate::strategy::Integrator), customizing
/// the unstable zone takes more coding (a new register type), but no
/// separate bound has to be stored beside the register.
pub struct Shifter<A, T> {
    reg: T,
    _polarity: PhantomData<A>,
}

impl<A: Active, T: NumericType> Shifter<A, T> {
    /// The register.
    pub closed spec fn reg_spec(&self) -> T {
        self.reg
    }

    /// The register value as a mathematical integer.
    pub open spec fn reg_val(&self) -> int {
        self.reg_spec().value()
    }

    /// The register value at or below which the input is settled low.
    pub open spec fn reg_min(&self) -> int {
        self.reg_spec().min_of()
    }

    /// The register value at or above which the input is settled high.
    pub open spec fn reg_max(&self) -> int {
        self.reg_spec().max_of()
    }

    /// Creates a new shifter, settled on the inactive value: at the
    /// register maximum for an active-low input, at the minimum otherwise.
    pub fn new() -> (r: Self)
        ensures
            r.inv(),
            A::active_spec() is Low ==> r.reg_val() == r.reg_max(),
            A::active_spec() is High ==> r.reg_val() == r.reg_min(),
    {
        Shifter {
            reg: if A::active_value() == Status::Low {
                T::max_value()
            } else {
                T::min_value()
            },
            _polarity: PhantomData,
        }
    }

    /// Creates a shifter that starts from the given register.
    pub fn with_reg(reg: T) -> (r: Self)
        requires
            reg.inv(),
        ensures
            r.inv(),
            r.reg_val() == reg.value(),
            r.reg_min() == reg.min_of(),
            r.reg_max() == reg.max_of(),
    {
        Shifter { reg, _polarity: PhantomData }
    }
}

impl<A: Active, T: NumericType> Strategy for Shifter<A, T> {
    open spec fn inv(&self) -> bool {
        self.reg_spec().inv()
    }

    open spec fn settled(&self) -> Option<Status> {
        if self.reg_val() <= self.reg_min() {
            Some(Status::Low)
        } else if self.reg_val() >= self.reg_max() {
            Some(Status::High)
        } else {
            None
        }
    }

    closed spec fn stepped(&self, sample: Status) -> Self {
        match sample {
            Status::Low => if self.reg.value() > self.reg.min_of() {
                Shifter { reg: self.reg.shr_spec(), _polarity: self._polarity }
            } else {
                *self
            },
            Status::High => if self.reg.value() < self.reg.max_of() {
                Shifter { reg: self.reg.shl_spec(), _polarity: self._polarity }
            } else {
                *self
            },
        }
    }

    fn status(&self) -> (r: Option<Status>) {
        if self.reg.at_min() {
            Some(Status::Low)
        } else if self.reg.at_max() {
            Some(Status::High)
        } else {
            None
        }
    }

    fn update(&mut self, sample: Status) -> (r: Option<Status>) {
        match sample {
            Status::Low => {
                if !self.reg.at_min() {
                    proof {
                        self.reg.lemma_shr();
                    }
                    self.reg = self.reg.shr();
                }
            },
            Status::High => {
                if !self.reg.at_max() {
                    proof {
                        self.reg.lemma_shl();
                    }
                    self.reg = self.reg.shl();
                }
            },
        }
        self.status()
    }
}

/// How one sample moves the register: a low sample shifts it down unless
/// it is already at its smallest value, a high sample shifts it up unless
/// it is already at its largest, and it never leaves its bounds, which
/// stay what they were.
pub proof fn lemma_shifter_step<A: Active, T: NumericType>(s: Shifter<A, T>, sample: Status)
    requires
        s.inv(),
    ensures
        s.stepped(sample).inv(),
        s.stepped(sample).reg_min() == s.reg_min(),
        s.stepped(sample).reg_max() == s.reg_max(),
        sample is Low ==> if s.reg_val() > s.reg_min() {
            s.stepped(sample).reg_spec() == s.reg_spec().shr_spec() && s.reg_min() <= s.stepped(
                sample,
            ).reg_val() < s.reg_val()
        } else {
            s.stepped(sample) == s
        },
        sample is High ==> if s.reg_val() < s.reg_max() {
            s.stepped(sample).reg_spec() == s.reg_spec().shl_spec() && s.reg_val() < s.stepped(
                sample,
            ).reg_val() <= s.reg_max()
        } else {
            s.stepped(sample) == s
        },
{
    match sample {
        Status::Low => {
            if s.reg.value() > s.reg.min_of() {
                s.reg.lemma_shr();
            }
        },
        Status::High => {
            if s.reg.value() < s.reg.max_of() {
                s.reg.lemma_shl();
            }
        },
    }
}

/// A run of samples that all read the same value walks the register to the
/// matching end of its range: each consistent sample moves it at least one
/// step, so its distance from that end shrinks by at least the run's
/// length, and the bounds stay what they were.
pub proof fn lemma_shifter_constant_run<A: Active, T: NumericType>(
    s: Shifter<A, T>,
    samples: Seq<Status>,
    v: Status,
)
    requires
        s.inv(),
        forall|k: int| 0 <= k < samples.len() ==> samples[k] == v,
    ensures
        run_steps(s, samples).inv(),
        run_steps(s, samples).reg_min() == s.reg_min(),
        run_steps(s, samples).reg_max() == s.reg_max(),
        run_steps(s, samples).reg_min() <= run_steps(s, samples).reg_val() <= run_steps(
            s,
            samples,
        ).reg_max(),
        v is Low ==> run_steps(s, samples).reg_val() - s.reg_min() <= if s.reg_val() - s.reg_min()
            - samples.len() >= 0 {
            s.reg_val() - s.reg_min() - samples.len()
        } else {
            0
        },
        v is High ==> s.reg_max() - run_steps(s, samples).reg_val() <= if s.reg_max() - s.reg_val()
            - samples.len() >= 0 {
            s.reg_max() - s.reg_val() - samples.len()
        } else {
            0
        },
    decreases samples.len(),
{
    s.reg.lemma_inv_bounds();
    if samples.len() == 0 {
        assert(run_steps(s, samples) == s);
    } else {
        let s1 = s.stepped(samples[0]);
        assert(samples[0] == v);
        lemma_shifter_step(s, v);
        let rest = samples.drop_first();
        assert(forall|k: int| 0 <= k < rest.len() ==> rest[k] == v);
        lemma_shifter_constant_run(s1, rest, v);
        assert(run_steps(s, samples) == run_steps(s1, rest));
    }
}

/// Law: with a zero-width register (largest value equal to smallest) the
/// strategy is never unsettled. Every reachable register sits at that one
/// value, the reported status is settled low, and every single sample
/// leaves it so.
pub proof fn lemma_shifter_degenerate<A: Active, T: NumericType>(s: Shifter<A, T>, sample: Status)
    requires
        s.inv(),
        s.reg_max() == s.reg_min(),
    ensures
        s.settled() == Some(Status::Low),
        s.stepped(sample) == s,
        s.stepped(sample).settled() == Some(Status::Low),
{
    s.reg.lemma_inv_bounds();
}

} // verus!
