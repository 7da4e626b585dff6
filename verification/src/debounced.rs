//! The stateful wrapper that turns a settling strategy and a sampling
//! function into a debounced input.

use vstd::prelude::*;

use core::marker::PhantomData;

use crate::active::Active;
use crate::status::Status;
use crate::strategy::{
    self, NumericType, Strategy, lemma_integrator_constant_run, lemma_run_steps_push,
    lemma_shifter_constant_run, run_steps,
};

verus! {

/// Debounces an input: for any signal, uses the owned strategy to determine
/// if the bit has settled. Typically used for buttons.
///
/// Stores the last settled value as determined by the
/// [`Strategy`]. The first stored value is the inverse of the
/// [`Active`] marker's value, so the input starts out inactive.
///
/// Most implementations of debouncing return the last stored value, which
/// corresponds to [`Self::get_latest`] and [`Self::is_triggered_latest`].
///
/// Every read operation invokes the sampling function exactly once (except
/// [`Self::get_blocking`], which invokes it until the strategy settles), so
/// no read is pure: two reads in a row can differ even on a constant input,
/// because the strategy needs several samples to converge.
pub struct Debounced<A, S, F> {
    is_input_high: F,
    strategy: S,
    hysteresis: Status,
    _polarity: PhantomData<A>,
}

/// Convenience for a [`Debounced`] input over an
/// [`Integrator`](strategy::Integrator) strategy.
pub type DebouncedIntegrator<A, F> = Debounced<A, strategy::Integrator, F>;

/// Convenience for a [`Debounced`] input over a
/// [`Shifter`](strategy::Shifter) strategy.
pub type DebouncedShifter<A, T, F> = Debounced<A, strategy::Shifter<A, T>, F>;

impl<A, S, F> Debounced<A, S, F> {
    /// The state of the owned strategy.
    pub closed spec fn strategy_state(&self) -> S {
        self.strategy
    }

    /// The last settled value, or the initial inactive value while none has
    /// settled yet.
    pub closed spec fn hysteresis_spec(&self) -> Status {
        self.hysteresis
    }

    /// The sampling function.
    pub closed spec fn sampler(&self) -> F {
        self.is_input_high
    }
}

impl<A, S: Strategy, F: Fn() -> bool> Debounced<A, S, F> {
    /// Fit to be polled: the strategy state is well formed and the sampling
    /// function may be called.
    pub open spec fn wf(&self) -> bool {
        &&& self.strategy_state().inv()
        &&& call_requires(self.sampler(), ())
    }
}

/// One polling step from `pre` to `post`: some boolean that the sampling
/// function could return was folded into the strategy as a status.
pub open spec fn sampled_once<A, S: Strategy, F: Fn() -> bool>(
    pre: Debounced<A, S, F>,
    post: Debounced<A, S, F>,
) -> bool {
    exists|b: bool|
        #[trigger] call_ensures(pre.sampler(), (), b) && post.strategy_state()
            == pre.strategy_state().stepped(Status::spec_from_bool(b))
}

/// A run of samples the sampling function could have produced: each entry
/// is `High` exactly when one call of the function could return `true`.
pub open spec fn admissible<F: Fn() -> bool>(f: F, samples: Seq<Status>) -> bool {
    forall|i: int|
        0 <= i < samples.len() ==> call_ensures(f, (), ((#[trigger] samples[i]) is High))
}

/// A run of polling steps from `pre` to `post`: at least one admissible
/// sample was folded into the strategy, one at a time and in order.
pub open spec fn sampled_many<A, S: Strategy, F: Fn() -> bool>(
    pre: Debounced<A, S, F>,
    post: Debounced<A, S, F>,
) -> bool {
    exists|samples: Seq<Status>|
        #![trigger run_steps(pre.strategy_state(), samples)]
        {
            &&& samples.len() >= 1
            &&& admissible(pre.sampler(), samples)
            &&& post.strategy_state() == run_steps(pre.strategy_state(), samples)
        }
}

/// Within `n` samples the strategy is settled, whatever admissible values
/// the sampling function returns along the way.
pub open spec fn settles_within<S: Strategy, F: Fn() -> bool>(s: S, f: F, n: nat) -> bool {
    forall|samples: Seq<Status>|
        (samples.len() >= n && admissible(f, samples)) ==> (#[trigger] run_steps(
            s,
            samples,
        )).settled() is Some
}

/// The input can only settle: some finite number of samples suffices to
/// settle the strategy, whatever admissible values the sampling function
/// returns along the way. The blocking reads ask their caller for this; on
/// an input that may never stabilize they would not return.
pub open spec fn settles<S: Strategy, F: Fn() -> bool>(s: S, f: F) -> bool {
    exists|n: nat| settles_within(s, f, n)
}

impl<A, S, F> Debounced<A, S, F> where A: Active, F: Fn() -> bool {
    /// Creates a new debounced input using any [`Strategy`].
    pub fn new(strategy: S, is_input_high: F) -> (r: Self)
        ensures
            r.strategy_state() == strategy,
            r.hysteresis_spec() == A::active_spec().spec_not(),
            r.sampler() == is_input_high,
    {
        Debounced {
            is_input_high,
            strategy,
            hysteresis: A::active_value().not(),
            _polarity: PhantomData,
        }
    }
}

impl<A, F> DebouncedIntegrator<A, F> where A: Active, F: Fn() -> bool {
    /// Convenience to create a new integrator-debounced input; `max` is the
    /// settling distance and must be positive.
    pub fn with_integrator(max: u8, is_input_high: F) -> (r: Self)
        requires
            1 <= max,
        ensures
            r.strategy_state().wf(),
            r.strategy_state().bound() == max,
            r.strategy_state().count() == if A::active_spec() is Low {
                max as int
            } else {
                0
            },
            r.hysteresis_spec() == A::active_spec().spec_not(),
            r.sampler() == is_input_high,
    {
        Self::new(strategy::Integrator::new::<A>(max), is_input_high)
    }
}

impl<A, T, F> DebouncedShifter<A, T, F> where
    A: Active,
    T: strategy::NumericType,
    F: Fn() -> bool,
 {
    /// Convenience to create a new shift-debounced input.
    pub fn with_shifter(is_input_high: F) -> (r: Self)
        ensures
            r.strategy_state().inv(),
            A::active_spec() is Low ==> r.strategy_state().reg_val() == r.strategy_state().reg_max(),
            A::active_spec() is High ==> r.strategy_state().reg_val() == r.strategy_state().reg_min(),
            r.hysteresis_spec() == A::active_spec().spec_not(),
            r.sampler() == is_input_high,
    {
        Self::new(strategy::Shifter::new(), is_input_high)
    }
}

impl<A, S, F> Debounced<A, S, F> where S: Strategy, F: Fn() -> bool {
    /// One raw read of the input line, as a status: `High` exactly when the
    /// sampling function returned `true`.
    fn input_status(&self) -> (r: Status)
        requires
            call_requires(self.sampler(), ()),
        ensures
            call_ensures(self.sampler(), (), (r is High)),
    {
        if (self.is_input_high)() {
            Status::High
        } else {
            Status::Low
        }
    }

    /// Takes one sample. If the strategy has not settled on a [`Status`],
    /// will not pick one; if it has, the settled value is also stored.
    pub fn try_get(&mut self) -> (r: Option<Status>)
        requires
            old(self).wf(),
        ensures
            final(self).wf(),
            final(self).sampler() == old(self).sampler(),
            sampled_once(*old(self), *final(self)),
            r == final(self).strategy_state().settled(),
            match r {
                Some(v) => final(self).hysteresis_spec() == v,
                None => final(self).hysteresis_spec() == old(self).hysteresis_spec(),
            },
    {
        let sample = self.input_status();
        proof {
            assert(Status::spec_from_bool(sample is High) == sample);
        }
        let r = self.strategy.update(sample);
        if let Some(s) = r {
            self.hysteresis = s;
        }
        r
    }

    /// Takes one sample. If the strategy has not settled on a [`Status`],
    /// returns the last settled value (or the initial inactive value while
    /// none has settled yet).
    pub fn get_latest(&mut self) -> (r: Status)
        requires
            old(self).wf(),
        ensures
            final(self).wf(),
            final(self).sampler() == old(self).sampler(),
            sampled_once(*old(self), *final(self)),
            match final(self).strategy_state().settled() {
                Some(v) => r == v && final(self).hysteresis_spec() == v,
                None => r == old(self).hysteresis_spec() && final(self).hysteresis_spec() == old(self).hysteresis_spec(),
            },
    {
        match self.try_get() {
            Some(s) => s,
            None => self.hysteresis,
        }
    }

    /// Takes samples until the strategy has settled on a [`Status`], then
    /// returns it.
    ///
    /// Spins on the sampling function with no pacing or escape hatch. It is
    /// the caller's business that the physical signal settles in finite
    /// time, stated here as [`settles`]: were the input free to stay
    /// unstable forever, the call would be free not to return.
    #[verifier::loop_isolation(false)]
    pub fn get_blocking(&mut self) -> (r: Status)
        requires
            old(self).wf(),
            settles(old(self).strategy_state(), old(self).sampler()),
        ensures
            final(self).wf(),
            final(self).sampler() == old(self).sampler(),
            sampled_many(*old(self), *final(self)),
            final(self).strategy_state().settled() == Some(r),
            final(self).hysteresis_spec() == r,
    {
        let ghost s0 = old(self).strategy_state();
        let ghost f = old(self).sampler();
        let ghost n = choose|n: nat| settles_within(s0, f, n);
        let ghost mut taken: Seq<Status> = Seq::empty();
        proof {
            assert(run_steps(s0, taken) == s0);
            assert(admissible(f, taken));
            if s0.settled() is None && taken.len() >= n {
                assert(run_steps(s0, taken).settled() is Some);
            }
        }
        loop
            invariant
                self.wf(),
                self.sampler() == old(self).sampler(),
                settles_within(s0, f, n),
                admissible(f, taken),
                self.strategy_state() == run_steps(s0, taken),
                self.strategy_state().settled() is None ==> taken.len() < n,
            decreases n - taken.len(),
        {
            let ghost pre = *self;
            let status = self.try_get();
            proof {
                let b0 = choose|b: bool|
                    #[trigger] call_ensures(pre.sampler(), (), b) && self.strategy_state()
                        == pre.strategy_state().stepped(Status::spec_from_bool(b));
                let x = Status::spec_from_bool(b0);
                lemma_run_steps_push(s0, taken, x);
                assert((x is High) == b0);
                let grown = taken.push(x);
                assert forall|i: int|
                    0 <= i < grown.len() implies call_ensures(
                    f,
                    (),
                    ((#[trigger] grown[i]) is High),
                ) by {
                    if i < taken.len() {
                        assert(grown[i] == taken[i]);
                    } else {
                        assert(grown[i] == x);
                    }
                }
                taken = grown;
                assert(admissible(f, taken));
                assert(taken.len() >= 1);
                assert(self.strategy_state() == run_steps(s0, taken));
                if self.strategy_state().settled() is None && taken.len() >= n {
                    assert(run_steps(s0, taken).settled() is Some);
                }
                assert(sampled_many(*old(self), *self));
            }
            if let Some(s) = status {
                return s;
            }
        }
    }
}

impl<A, S, F> Debounced<A, S, F> where A: Active, S: Strategy, F: Fn() -> bool {
    /// Takes one sample. If the strategy has not settled on a [`Status`],
    /// returns the inactive value rather than the last settled one:
    /// "no information yet" instead of "defaults to last known".
    pub fn get_or_unset(&mut self) -> (r: Status)
        requires
            old(self).wf(),
        ensures
            final(self).wf(),
            final(self).sampler() == old(self).sampler(),
            sampled_once(*old(self), *final(self)),
            match final(self).strategy_state().settled() {
                Some(v) => r == v && final(self).hysteresis_spec() == v,
                None => r == A::active_spec().spec_not() && final(self).hysteresis_spec() == old(self).hysteresis_spec(),
            },
    {
        match self.try_get() {
            Some(s) => s,
            None => A::active_value().not(),
        }
    }

    /// Compares [`Self::try_get`] with the value of an active input.
    pub fn try_is_triggered(&mut self) -> (r: Option<bool>)
        requires
            old(self).wf(),
        ensures
            final(self).wf(),
            final(self).sampler() == old(self).sampler(),
            sampled_once(*old(self), *final(self)),
            match final(self).strategy_state().settled() {
                Some(v) => r == Some(v == A::active_spec()) && final(self).hysteresis_spec() == v,
                None => r is None && final(self).hysteresis_spec() == old(self).hysteresis_spec(),
            },
    {
        match self.try_get() {
            Some(s) => Some(s == A::active_value()),
            None => None,
        }
    }

    /// Compares [`Self::get_latest`] with the value of an active input.
    pub fn is_triggered_latest(&mut self) -> (r: bool)
        requires
            old(self).wf(),
        ensures
            final(self).wf(),
            final(self).sampler() == old(self).sampler(),
            sampled_once(*old(self), *final(self)),
            match final(self).strategy_state().settled() {
                Some(v) => r == (v == A::active_spec()) && final(self).hysteresis_spec() == v,
                None => r == (old(self).hysteresis_spec() == A::active_spec()) && final(self).hysteresis_spec() == old(self).hysteresis_spec(),
            },
    {
        let s = self.get_latest();
        s == A::active_value()
    }

    /// Compares [`Self::get_blocking`] with the value of an active input.
    pub fn is_triggered_blocking(&mut self) -> (r: bool)
        requires
            old(self).wf(),
            settles(old(self).strategy_state(), old(self).sampler()),
        ensures
            final(self).wf(),
            final(self).sampler() == old(self).sampler(),
            sampled_many(*old(self), *final(self)),
            match final(self).strategy_state().settled() {
                Some(v) => r == (v == A::active_spec()) && final(self).hysteresis_spec() == v,
                None => false,
            },
    {
        let s = self.get_blocking();
        s == A::active_value()
    }

    /// Compares [`Self::get_or_unset`] with the value of an active input.
    pub fn is_triggered_or_unset(&mut self) -> (r: bool)
        requires
            old(self).wf(),
        ensures
            final(self).wf(),
            final(self).sampler() == old(self).sampler(),
            sampled_once(*old(self), *final(self)),
            match final(self).strategy_state().settled() {
                Some(v) => r == (v == A::active_spec()) && final(self).hysteresis_spec() == v,
                None => r == false && final(self).hysteresis_spec() == old(self).hysteresis_spec(),
            },
    {
        let s = self.get_or_unset();
        s == A::active_value()
    }
}

/// The stored hysteresis after folding `samples` into strategy state `s`,
/// starting from stored value `h`: each settlement overwrites the store.
pub open spec fn hysteresis_after<S: Strategy>(s: S, h: Status, samples: Seq<Status>) -> Status
    decreases samples.len(),
{
    if samples.len() == 0 {
        h
    } else {
        let s1 = s.stepped(samples[0]);
        let h1 = match s1.settled() {
            Some(v) => v,
            None => h,
        };
        hysteresis_after(s1, h1, samples.drop_first())
    }
}

/// Law: the hysteresis is never invented. After any run of samples, the
/// stored value that `get_latest` falls back on is either the value the
/// store started from or a value on which the strategy settled just after
/// one of those samples.
/// The blocking reads are callable on a steady input: a sampling function
/// that can only report the one value `b` settles an integrator within its
/// bound.
pub proof fn lemma_integrator_settles<F: Fn() -> bool>(i: strategy::Integrator, f: F, b: bool)
    requires
        i.wf(),
        forall|r: bool| call_ensures(f, (), r) ==> r == b,
    ensures
        settles(i, f),
{
    let n = i.bound() as nat;
    let v = Status::spec_from_bool(b);
    assert forall|samples: Seq<Status>|
        (samples.len() >= n && admissible(f, samples)) implies (#[trigger] run_steps(
        i,
        samples,
    )).settled() is Some by {
        assert forall|k: int| 0 <= k < samples.len() implies samples[k] == v by {
            assert(call_ensures(f, (), (samples[k] is High)));
            assert((samples[k] is High) == b);
        }
        lemma_integrator_constant_run(i, samples, v);
    }
    assert(settles_within(i, f, n));
}

/// The blocking reads are callable on a steady input: a sampling function
/// that can only report the one value `b` settles a shifter within the
/// width of its register's range.
pub proof fn lemma_shifter_settles<A: Active, T: NumericType, F: Fn() -> bool>(
    s: strategy::Shifter<A, T>,
    f: F,
    b: bool,
)
    requires
        s.inv(),
        forall|r: bool| call_ensures(f, (), r) ==> r == b,
    ensures
        settles(s, f),
{
    s.reg_spec().lemma_inv_bounds();
    let n = (s.reg_max() - s.reg_min()) as nat;
    let v = Status::spec_from_bool(b);
    assert forall|samples: Seq<Status>|
        (samples.len() >= n && admissible(f, samples)) implies (#[trigger] run_steps(
        s,
        samples,
    )).settled() is Some by {
        assert forall|k: int| 0 <= k < samples.len() implies samples[k] == v by {
            assert(call_ensures(f, (), (samples[k] is High)));
            assert((samples[k] is High) == b);
        }
        lemma_shifter_constant_run(s, samples, v);
    }
    assert(settles_within(s, f, n));
}

pub proof fn lemma_hysteresis_safety<S: Strategy>(s: S, h: Status, samples: Seq<Status>)
    ensures
        hysteresis_after(s, h, samples) == h || exists|i: int|
            1 <= i <= samples.len() && run_steps(s, #[trigger] samples.take(i)).settled() == Some(
                hysteresis_after(s, h, samples),
            ),
    decreases samples.len(),
{
    if samples.len() == 0 {
    } else {
        let s1 = s.stepped(samples[0]);
        let h1 = match s1.settled() {
            Some(v) => v,
            None => h,
        };
        let rest = samples.drop_first();
        let result = hysteresis_after(s, h, samples);
        assert(result == hysteresis_after(s1, h1, rest));
        lemma_hysteresis_safety(s1, h1, rest);
        assert(samples.take(1).drop_first() =~= Seq::<Status>::empty());
        assert(samples.take(1)[0] == samples[0]);
        assert(run_steps(s1, samples.take(1).drop_first()) == s1);
        assert(run_steps(s, samples.take(1)) == run_steps(
            s.stepped(samples.take(1)[0]),
            samples.take(1).drop_first(),
        ));
        assert(run_steps(s, samples.take(1)) == s1);
        if result == h1 && s1.settled() is Some {
            assert(run_steps(s, samples.take(1)).settled() == Some(result));
        } else if result == h1 {
            assert(result == h);
        } else {
            let j = choose|j: int|
                1 <= j <= rest.len() && run_steps(s1, #[trigger] rest.take(j)).settled() == Some(
                    hysteresis_after(s1, h1, rest),
                );
            assert(samples.take(j + 1).drop_first() =~= rest.take(j));
            assert(samples.take(j + 1)[0] == samples[0]);
            assert(run_steps(s, samples.take(j + 1)) == run_steps(
                s.stepped(samples.take(j + 1)[0]),
                samples.take(j + 1).drop_first(),
            ));
            assert(run_steps(s, samples.take(j + 1)).settled() == Some(result));
        }
    }
}

} // verus!
