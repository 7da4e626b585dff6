use core::cell::Cell;

use debounce::Status;
use debounce::active::{High, Low};
use debounce::{Debounced, DebouncedIntegrator, DebouncedShifter};

type DbInt<F> = DebouncedIntegrator<Low, F>;
type DbShf<T, F> = DebouncedShifter<High, T, F>;

#[test]
fn debounced_low_is_triggered() {
    let mut d = DbInt::with_integrator(6, || false);
    assert_eq!(d.try_is_triggered(), None);
    assert_eq!(d.is_triggered_or_unset(), false);
    assert_eq!(d.is_triggered_latest(), false);
    assert_eq!(d.try_is_triggered(), None);
    assert_eq!(d.is_triggered_latest(), false);
    assert_eq!(d.is_triggered_latest(), true);
    assert_eq!(d.is_triggered_latest(), true);
    assert_eq!(d.is_triggered_or_unset(), true);
    assert_eq!(d.try_is_triggered(), Some(true));
}

#[test]
fn blocking() {
    let mut d = DbInt::with_integrator(6, || false);
    assert_eq!(d.get_blocking(), Status::Low);
    let mut d = DbInt::with_integrator(6, || true);
    assert_eq!(d.get_blocking(), Status::High);

    let mut e = DbInt::with_integrator(6, || false);
    assert_eq!(e.is_triggered_blocking(), true);
    let mut e = DbInt::with_integrator(6, || true);
    assert_eq!(e.is_triggered_blocking(), false);

    let mut f = Debounced::<High, _, _>::with_integrator(6, || true);
    assert_eq!(f.get_blocking(), Status::High);
    let mut f = Debounced::<High, _, _>::with_integrator(6, || false);
    assert_eq!(f.get_blocking(), Status::Low);

    let mut g = Debounced::<High, _, _>::with_integrator(6, || true);
    assert_eq!(g.is_triggered_blocking(), true);
    let mut g = Debounced::<High, _, _>::with_integrator(6, || false);
    assert_eq!(g.is_triggered_blocking(), false);
}

#[test]
fn low_status() {
    let bit = Cell::new(false);
    let mut d = DbInt::with_integrator(6, || bit.get());
    assert_eq!(d.try_get(), None);
    assert_eq!(d.get_or_unset(), Status::High);
    assert_eq!(d.get_latest(), Status::High);
    assert_eq!(d.try_get(), None);
    assert_eq!(d.get_latest(), Status::High);
    // next reads will all be low
    assert_eq!(d.get_latest(), Status::Low);
    assert_eq!(d.get_latest(), Status::Low);
    assert_eq!(d.get_or_unset(), Status::Low);
    assert_eq!(d.try_get(), Some(Status::Low));

    bit.set(true);
    assert_eq!(d.try_get(), None);
    assert_eq!(d.get_or_unset(), Status::High);
    assert_eq!(d.get_latest(), Status::Low);
    assert_eq!(d.try_get(), None);
    assert_eq!(d.get_latest(), Status::Low);
    // next reads will all be high
    assert_eq!(d.get_latest(), Status::High);
    assert_eq!(d.get_latest(), Status::High);
    assert_eq!(d.get_or_unset(), Status::High);
    assert_eq!(d.try_get(), Some(Status::High));
}

#[test]
fn high_is_triggered() {
    let mut d = DbShf::<u8, _>::with_shifter(|| true);
    assert_eq!(d.try_is_triggered(), None);
    assert_eq!(d.is_triggered_or_unset(), false);
    assert_eq!(d.is_triggered_latest(), false);
    assert_eq!(d.try_is_triggered(), None);
    assert_eq!(d.is_triggered_latest(), false);
    assert_eq!(d.is_triggered_latest(), false);
    assert_eq!(d.is_triggered_latest(), true);
    assert_eq!(d.is_triggered_latest(), true);
    assert_eq!(d.is_triggered_or_unset(), true);
    assert_eq!(d.try_is_triggered(), Some(true));
}

#[test]
fn latest_never_invents_a_value() {
    // The input flips on every read, so an integrator that needs three
    // consistent samples towards High never settles there: the fallback
    // may only ever be the initial inactive value or a settled Low.
    let flip = Cell::new(true);
    let mut d = Debounced::<High, _, _>::with_integrator(3, || {
        let v = flip.get();
        flip.set(!v);
        v
    });
    for _ in 0..12 {
        assert_eq!(d.get_latest(), Status::Low);
    }
}
