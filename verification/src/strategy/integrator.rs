//! The saturating-counter settling strategy.

use vstd::prelude::*;

use crate::active::Active;
use crate::status::Status;
use crate::strategy::{Strategy, run_steps};

verus! {

/// Integrating strategy for debouncing: a saturating counter.
///
/// The counter moves up on a high sample and down on a low one, never
/// leaving `[0, bound]`. At `0` the input is settled low; at the bound it
/// is settled high; anywhere in between is unsettled. The counter starts
/// settled on the [inactive](crate::active::Active) value.
pub struct Integrator {
    integrator: u8,
    max: u8,
}

impl Integrator {
    /// The counter as a mathematical integer.
    pub closed spec fn count(&self) -> int {
        self.integrator as int
    }

    /// The settling bound: the least number of consecutive matching samples
    /// that toggles the settled output.
    pub closed spec fn bound(&self) -> int {
        self.max as int
    }

    /// Well-formed: a positive bound and a counter inside `[0, bound]`.
    pub open spec fn wf(&self) -> bool {
        1 <= self.bound() && 0 <= self.count() <= self.bound()
    }

    /// Creates a new integrator with the given settling `distance`, which
    /// must be positive.
    ///
    /// Use [`samples`](crate::samples) to compute the distance from a
    /// sampling frequency and a hold time. The counter starts at the bound
    /// when the marked polarity is active-low, else at zero: settled on the
    /// inactive value either way.
    pub fn new<A: Active>(distance: u8) -> (r: Self)
        requires
            1 <= distance,
        ensures
            r.wf(),
            r.bound() == distance,
            r.count() == if A::active_spec() is Low {
                distance as int
            } else {
                0
            },
    {
        Integrator {
            integrator: if A::active_value() == Status::Low {
                distance
            } else {
                0
            },
            max: distance,
        }
    }
}

impl Strategy for Integrator {
    open spec fn inv(&self) -> bool {
        self.wf()
    }

    open spec fn settled(&self) -> Option<Status> {
        if self.count() == 0 {
            Some(Status::Low)
        } else if self.count() >= self.bound() {
            Some(Status::High)
        } else {
            None
        }
    }

    closed spec fn stepped(&self, sample: Status) -> Self {
        match sample {
            Status::Low => Integrator {
                integrator: if self.integrator > 0 {
                    (self.integrator - 1) as u8
                } else {
                    0
                },
                max: self.max,
            },
            Status::High => Integrator {
                integrator: if self.integrator < self.max {
                    (self.integrator + 1) as u8
                } else {
                    self.integrator
                },
                max: self.max,
            },
        }
    }

    fn status(&self) -> (r: Option<Status>) {
        if self.integrator == 0 {
            Some(Status::Low)
        } else if self.integrator >= self.max {
            Some(Status::High)
        } else {
            None
        }
    }

    fn update(&mut self, sample: Status) -> (r: Option<Status>) {
        match sample {
            Status::Low => {
                if self.integrator > 0 {
                    self.integrator = self.integrator - 1;
                }
            },
            Status::High => {
                if self.integrator < self.max {
                    self.integrator = self.integrator + 1;
                }
            },
        }
        self.status()
    }
}

/// How one sample moves the counter: a low sample decrements towards zero
/// and a high sample increments towards the bound, each saturating there.
pub proof fn lemma_integrator_step(i: Integrator, sample: Status)
    ensures
        i.stepped(sample).bound() == i.bound(),
        i.stepped(sample).count() == match sample {
            Status::Low => if i.count() > 0 {
                i.count() - 1
            } else {
                0
            },
            Status::High => if i.count() < i.bound() {
                i.count() + 1
            } else {
                i.count()
            },
        },
{
}

/// A run of samples that all read the same value drives the counter all
/// the way to the matching end of `[0, bound]`: after `len` consistent
/// samples it has moved by `len`, saturating at the end.
pub proof fn lemma_integrator_constant_run(i: Integrator, samples: Seq<Status>, v: Status)
    requires
        i.wf(),
        forall|k: int| 0 <= k < samples.len() ==> samples[k] == v,
    ensures
        run_steps(i, samples).wf(),
        run_steps(i, samples).bound() == i.bound(),
        run_steps(i, samples).count() == match v {
            Status::Low => if i.count() - samples.len() >= 0 {
                i.count() - samples.len()
            } else {
                0
            },
            Status::High => if i.count() + samples.len() <= i.bound() {
                i.count() + samples.len()
            } else {
                i.bound()
            },
        },
    decreases samples.len(),
{
    if samples.len() == 0 {
        assert(run_steps(i, samples) == i);
    } else {
        let s1 = i.stepped(samples[0]);
        assert(samples[0] == v);
        let rest = samples.drop_first();
        assert(forall|k: int| 0 <= k < rest.len() ==> rest[k] == v);
        lemma_integrator_constant_run(s1, rest, v);
        assert(run_steps(i, samples) == run_steps(s1, rest));
    }
}

/// Law: the counter saturates. At the bound, a high sample leaves it at the
/// bound; at zero, a low sample leaves it at zero; no sample pushes it out
/// of `[0, bound]`.
pub proof fn lemma_integrator_saturation(i: Integrator, sample: Status)
    requires
        i.wf(),
    ensures
        i.stepped(sample).wf(),
        i.count() == i.bound() ==> i.stepped(Status::High).count() == i.bound(),
        i.count() == 0 ==> i.stepped(Status::Low).count() == 0,
        0 <= i.stepped(sample).count() <= i.bound(),
{
}

} // verus!
