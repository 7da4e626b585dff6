//! Settling strategies for debouncing.
//!
//! A [`Strategy`] folds one raw sample at a time into its internal state and
//! reports a settled [`Status`] once it is confident that the input is
//! stable. Two strategies are provided: a saturating counter
//! ([`Integrator`]) and a shift register over a bounded numeric type
//! ([`Shifter`]).

use vstd::prelude::*;

use crate::status::Status;

mod integrator;
pub use integrator::{Integrator, lemma_integrator_constant_run, lemma_integrator_saturation, lemma_integrator_step};
mod shift;
pub use shift::{Shifter, lemma_shifter_constant_run, lemma_shifter_degenerate, lemma_shifter_step};
mod shift_const;
pub use shift_const::{DebouncedIntegrandShift, Integrand, IntegrandShifter};
mod shift_generic;
pub use shift_generic::{DebouncedSmall, ShifterData};

verus! {

/// A debouncing algorithm: a stateful fold over raw samples.
///
/// The strategy keeps only the evidence it has accumulated, never the most
/// recent settled state; that storage belongs to the wrapper around it.
pub trait Strategy: Sized {
    /// Well-formed internal state.
    spec fn inv(&self) -> bool;

    /// The settlement the strategy reports of its current state: `None`
    /// while the input has not stabilized, else the stable value.
    spec fn settled(&self) -> Option<Status>;

    /// The state after folding in one more raw sample.
    spec fn stepped(&self, sample: Status) -> Self;

    /// The current status of the debouncing, without taking a sample.
    fn status(&self) -> (r: Option<Status>)
        requires
            self.inv(),
        ensures
            r == self.settled(),
    ;

    /// Folds the latest `sample` into the state, then returns what
    /// [`Strategy::status`] would return right after.
    fn update(&mut self, sample: Status) -> (r: Option<Status>)
        requires
            old(self).inv(),
        ensures
            final(self).inv(),
            *final(self) == old(self).stepped(sample),
            r == final(self).settled(),
    ;
}

/// The state a strategy reaches after folding in `samples`, one at a time
/// and in order.
pub open spec fn run_steps<S: Strategy>(s: S, samples: Seq<Status>) -> S
    decreases samples.len(),
{
    if samples.len() == 0 {
        s
    } else {
        run_steps(s.stepped(samples[0]), samples.drop_first())
    }
}

/// Folding in the samples and then one more is folding in one more after
/// the samples.
pub proof fn lemma_run_steps_push<S: Strategy>(s: S, samples: Seq<Status>, x: Status)
    ensures
        run_steps(s, samples.push(x)) == run_steps(s, samples).stepped(x),
    decreases samples.len(),
{
    let grown = samples.push(x);
    if samples.len() == 0 {
        assert(grown.drop_first() =~= Seq::<Status>::empty());
        assert(run_steps(s, samples) == s);
        assert(run_steps(s.stepped(x), grown.drop_first()) == s.stepped(x));
        assert(run_steps(s, grown) == run_steps(s.stepped(grown[0]), grown.drop_first()));
    } else {
        assert(grown.drop_first() =~= samples.drop_first().push(x));
        lemma_run_steps_push(s.stepped(samples[0]), samples.drop_first(), x);
        assert(run_steps(s, grown) == run_steps(s.stepped(grown[0]), grown.drop_first()));
        assert(run_steps(s, samples) == run_steps(s.stepped(samples[0]), samples.drop_first()));
    }
}

/// Types that can act as the register of a [`Shifter`].
///
/// A register value carries its own bounds: it moves towards `max_of` on a
/// high sample (`shl`) and towards `min_of` on a low one (`shr`). The
/// bounds need not be the type's physical extremes: a narrower register
/// tunes sensitivity and storage. `inv` names the register values that
/// shifting can reach; each shift stays inside it and keeps the bounds.
pub trait NumericType: Sized + Copy {
    /// The register value as a mathematical integer.
    spec fn value(self) -> int;

    /// The smallest register value: at or below it the input is settled
    /// low.
    spec fn min_of(self) -> int;

    /// The largest register value: at or above it the input is settled
    /// high.
    spec fn max_of(self) -> int;

    /// The register values that shifting can reach.
    spec fn inv(self) -> bool;

    /// The register one shift towards `max_of`.
    spec fn shl_spec(self) -> Self;

    /// The register one shift towards `min_of`.
    spec fn shr_spec(self) -> Self;

    /// A reachable register lies between its bounds. The bounds may
    /// coincide: a zero-width register is degenerate but allowed.
    proof fn lemma_inv_bounds(self)
        requires
            self.inv(),
        ensures
            self.min_of() <= self.value() <= self.max_of(),
    ;

    /// A shift up strictly grows the register, stays reachable and in
    /// bounds, and keeps the bounds.
    proof fn lemma_shl(self)
        requires
            self.inv(),
            self.value() < self.max_of(),
        ensures
            self.shl_spec().inv(),
            self.value() < self.shl_spec().value() <= self.max_of(),
            self.shl_spec().min_of() == self.min_of(),
            self.shl_spec().max_of() == self.max_of(),
    ;

    /// A shift down strictly shrinks the register, stays reachable and in
    /// bounds, and keeps the bounds.
    proof fn lemma_shr(self)
        requires
            self.inv(),
            self.value() > self.min_of(),
        ensures
            self.shr_spec().inv(),
            self.min_of() <= self.shr_spec().value() < self.value(),
            self.shr_spec().min_of() == self.min_of(),
            self.shr_spec().max_of() == self.max_of(),
    ;

    /// Returns a register at its smallest value.
    fn min_value() -> (r: Self)
        ensures
            r.inv(),
            r.value() == r.min_of(),
    ;

    /// Returns a register at its largest value.
    fn max_value() -> (r: Self)
        ensures
            r.inv(),
            r.value() == r.max_of(),
    ;

    /// Shifts the register one step towards `max_of`.
    fn shl(self) -> (r: Self)
        requires
            self.inv(),
            self.value() < self.max_of(),
        ensures
            r == self.shl_spec(),
    ;

    /// Shifts the register one step towards `min_of`.
    fn shr(self) -> (r: Self)
        requires
            self.inv(),
            self.value() > self.min_of(),
        ensures
            r == self.shr_spec(),
    ;

    /// Is the register at or below its smallest value?
    fn at_min(self) -> (r: bool)
        requires
            self.inv(),
        ensures
            r == (self.value() <= self.min_of()),
    ;

    /// Is the register at or above its largest value?
    fn at_max(self) -> (r: bool)
        requires
            self.inv(),
        ensures
            r == (self.value() >= self.max_of()),
    ;
}

/// Two to the power `k`.
pub open spec fn power_of_two(k: nat) -> int
    decreases k,
{
    if k == 0 {
        1
    } else {
        2 * power_of_two((k - 1) as nat)
    }
}

proof fn lemma_power_of_two_pos(k: nat)
    ensures
        power_of_two(k) >= 1,
    decreases k,
{
    if k > 0 {
        lemma_power_of_two_pos((k - 1) as nat);
    }
}

proof fn lemma_power_of_two_mono(j: nat, k: nat)
    requires
        j <= k,
    ensures
        power_of_two(j) <= power_of_two(k),
    decreases k,
{
    if j < k {
        lemma_power_of_two_mono(j, (k - 1) as nat);
        lemma_power_of_two_pos((k - 1) as nat);
    }
}

proof fn lemma_power_values()
    ensures
        power_of_two(7) == 0x80,
        power_of_two(15) == 0x8000,
        power_of_two(31) == 0x80000000,
        power_of_two(63) == 0x8000000000000000,
{
    reveal_with_fuel(power_of_two, 64);
}

/// The registers of the built-in unsigned types: the powers of two up to
/// `power_of_two(top)`.
pub open spec fn shift_register(v: int, top: nat) -> bool {
    exists|k: nat| k <= top && v == #[trigger] power_of_two(k)
}

proof fn lemma_register_bounds(v: int, top: nat)
    requires
        shift_register(v, top),
    ensures
        1 <= v <= power_of_two(top),
{
    let k = choose|k: nat| k <= top && v == #[trigger] power_of_two(k);
    lemma_power_of_two_pos(k);
    lemma_power_of_two_mono(k, top);
}

proof fn lemma_register_shl(v: int, top: nat)
    requires
        shift_register(v, top),
        v < power_of_two(top),
    ensures
        shift_register(2 * v, top),
        v < 2 * v <= power_of_two(top),
{
    let k = choose|k: nat| k <= top && v == #[trigger] power_of_two(k);
    lemma_power_of_two_pos(k);
    assert(k < top);
    assert(power_of_two(k + 1) == 2 * power_of_two(k));
    lemma_power_of_two_mono(k + 1, top);
}

proof fn lemma_register_shr(v: int, top: nat)
    requires
        shift_register(v, top),
        v > 1,
    ensures
        shift_register(v / 2, top),
        1 <= v / 2 < v,
        v == 2 * (v / 2),
{
    let k = choose|k: nat| k <= top && v == #[trigger] power_of_two(k);
    assert(power_of_two(0) == 1);
    assert(k >= 1);
    assert(power_of_two(k) == 2 * power_of_two((k - 1) as nat));
    lemma_power_of_two_pos((k - 1) as nat);
    assert(v / 2 == power_of_two((k - 1) as nat));
}

impl NumericType for u8 {
    open spec fn value(self) -> int {
        self as int
    }

    open spec fn min_of(self) -> int {
        1
    }

    open spec fn max_of(self) -> int {
        0x80
    }

    open spec fn inv(self) -> bool {
        shift_register(self as int, 7)
    }

    open spec fn shl_spec(self) -> Self {
        (2 * self) as u8
    }

    open spec fn shr_spec(self) -> Self {
        (self / 2) as u8
    }

    proof fn lemma_inv_bounds(self) {
        lemma_register_bounds(self as int, 7);
        lemma_power_values();
    }

    proof fn lemma_shl(self) {
        lemma_power_values();
        lemma_register_shl(self as int, 7);
    }

    proof fn lemma_shr(self) {
        lemma_power_values();
        lemma_register_shr(self as int, 7);
    }

    fn min_value() -> (r: Self)
        ensures
            r.inv(),
            r.value() == r.min_of(),
    {
        proof {
            assert(power_of_two(0) == 1);
        }
        1
    }

    fn max_value() -> (r: Self)
        ensures
            r.inv(),
            r.value() == r.max_of(),
    {
        proof {
            lemma_power_values();
        }
        0x80
    }

    fn shl(self) -> Self {
        self * 2
    }

    fn shr(self) -> Self {
        self / 2
    }

    fn at_min(self) -> bool {
        self <= 1
    }

    fn at_max(self) -> bool {
        self >= 0x80
    }
}

impl NumericType for u16 {
    open spec fn value(self) -> int {
        self as int
    }

    open spec fn min_of(self) -> int {
        1
    }

    open spec fn max_of(self) -> int {
        0x8000
    }

    open spec fn inv(self) -> bool {
        shift_register(self as int, 15)
    }

    open spec fn shl_spec(self) -> Self {
        (2 * self) as u16
    }

    open spec fn shr_spec(self) -> Self {
        (self / 2) as u16
    }

    proof fn lemma_inv_bounds(self) {
        lemma_register_bounds(self as int, 15);
        lemma_power_values();
    }

    proof fn lemma_shl(self) {
        lemma_power_values();
        lemma_register_shl(self as int, 15);
    }

    proof fn lemma_shr(self) {
        lemma_power_values();
        lemma_register_shr(self as int, 15);
    }

    fn min_value() -> (r: Self)
        ensures
            r.inv(),
            r.value() == r.min_of(),
    {
        proof {
            assert(power_of_two(0) == 1);
        }
        1
    }

    fn max_value() -> (r: Self)
        ensures
            r.inv(),
            r.value() == r.max_of(),
    {
        proof {
            lemma_power_values();
        }
        0x8000
    }

    fn shl(self) -> Self {
        self * 2
    }

    fn shr(self) -> Self {
        self / 2
    }

    fn at_min(self) -> bool {
        self <= 1
    }

    fn at_max(self) -> bool {
        self >= 0x8000
    }
}

impl NumericType for u32 {
    open spec fn value(self) -> int {
        self as int
    }

    open spec fn min_of(self) -> int {
        1
    }

    open spec fn max_of(self) -> int {
        0x80000000
    }

    open spec fn inv(self) -> bool {
        shift_register(self as int, 31)
    }

    open spec fn shl_spec(self) -> Self {
        (2 * self) as u32
    }

    open spec fn shr_spec(self) -> Self {
        (self / 2) as u32
    }

    proof fn lemma_inv_bounds(self) {
        lemma_register_bounds(self as int, 31);
        lemma_power_values();
    }

    proof fn lemma_shl(self) {
        lemma_power_values();
        lemma_register_shl(self as int, 31);
    }

    proof fn lemma_shr(self) {
        lemma_power_values();
        lemma_register_shr(self as int, 31);
    }

    fn min_value() -> (r: Self)
        ensures
            r.inv(),
            r.value() == r.min_of(),
    {
        proof {
            assert(power_of_two(0) == 1);
        }
        1
    }

    fn max_value() -> (r: Self)
        ensures
            r.inv(),
            r.value() == r.max_of(),
    {
        proof {
            lemma_power_values();
        }
        0x80000000
    }

    fn shl(self) -> Self {
        self * 2
    }

    fn shr(self) -> Self {
        self / 2
    }

    fn at_min(self) -> bool {
        self <= 1
    }

    fn at_max(self) -> bool {
        self >= 0x80000000
    }
}

impl NumericType for u64 {
    open spec fn value(self) -> int {
        self as int
    }

    open spec fn min_of(self) -> int {
        1
    }

    open spec fn max_of(self) -> int {
        0x8000000000000000
    }

    open spec fn inv(self) -> bool {
        shift_register(self as int, 63)
    }

    open spec fn shl_spec(self) -> Self {
        (2 * self) as u64
    }

    open spec fn shr_spec(self) -> Self {
        (self / 2) as u64
    }

    proof fn lemma_inv_bounds(self) {
        lemma_register_bounds(self as int, 63);
        lemma_power_values();
    }

    proof fn lemma_shl(self) {
        lemma_power_values();
        lemma_register_shl(self as int, 63);
    }

    proof fn lemma_shr(self) {
        lemma_power_values();
        lemma_register_shr(self as int, 63);
    }

    fn min_value() -> (r: Self)
        ensures
            r.inv(),
            r.value() == r.min_of(),
    {
        proof {
            assert(power_of_two(0) == 1);
        }
        1
    }

    fn max_value() -> (r: Self)
        ensures
            r.inv(),
            r.value() == r.max_of(),
    {
        proof {
            lemma_power_values();
        }
        0x8000000000000000
    }

    fn shl(self) -> Self {
        self * 2
    }

    fn shr(self) -> Self {
        self / 2
    }

    fn at_min(self) -> bool {
        self <= 1
    }

    fn at_max(self) -> bool {
        self >= 0x8000000000000000
    }
}

} // verus!
