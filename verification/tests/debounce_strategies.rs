use debounce::DebouncedIntegrandShift;
use debounce::Status;
use debounce::active::{High, Low};
use debounce::strategy::{DebouncedSmall, Integrator, Shifter, Strategy};

type DbShfInt<F> = DebouncedIntegrandShift<Low, F>;

#[test]
fn integrator_update_progress() {
    let mut i = Integrator::new::<Low>(3);
    assert_eq!(i.status(), Some(Status::High));
    assert_eq!(i.update(Status::High), Some(Status::High));
    assert_eq!(i.update(Status::Low), None);
    assert_eq!(i.update(Status::Low), None);
    assert_eq!(i.update(Status::Low), Some(Status::Low));
    assert_eq!(i.update(Status::High), None);
    assert_eq!(i.update(Status::High), None);
    assert_eq!(i.update(Status::High), Some(Status::High));
}

#[test]
fn integrator_update_high() {
    let i = Integrator::new::<High>(3);
    assert_eq!(i.status(), Some(Status::Low));
}

#[test]
fn integrator_update_low() {
    let i = Integrator::new::<Low>(3);
    assert_eq!(i.status(), Some(Status::High));
}

#[test]
fn integrator_saturates() {
    let mut i = Integrator::new::<Low>(3);
    for _ in 0..10 {
        assert_eq!(i.update(Status::High), Some(Status::High));
    }
    let mut i = Integrator::new::<High>(3);
    for _ in 0..10 {
        assert_eq!(i.update(Status::Low), Some(Status::Low));
    }
}

#[test]
fn shift_update_progress() {
    let mut i = Shifter::<Low, u8>::new();
    assert_eq!(i.status(), Some(Status::High));
    assert_eq!(i.update(Status::High), Some(Status::High));
    assert_eq!(i.update(Status::Low), None);
    assert_eq!(i.update(Status::Low), None);
    assert_eq!(i.update(Status::Low), None);
    assert_eq!(i.update(Status::Low), None);
    assert_eq!(i.update(Status::Low), None);
    assert_eq!(i.update(Status::Low), None);
    assert_eq!(i.update(Status::Low), Some(Status::Low));
    assert_eq!(i.update(Status::Low), Some(Status::Low));
    assert_eq!(i.update(Status::High), None);
    assert_eq!(i.update(Status::High), None);
    assert_eq!(i.update(Status::High), None);
    assert_eq!(i.update(Status::High), None);
    assert_eq!(i.update(Status::High), None);
    assert_eq!(i.update(Status::High), None);
    assert_eq!(i.update(Status::High), Some(Status::High));
    assert_eq!(i.update(Status::High), Some(Status::High));
}

#[test]
fn shift_update_high() {
    let i = Shifter::<High, u8>::new();
    assert_eq!(i.status(), Some(Status::Low));
}

#[test]
fn shift_update_low() {
    let i = Shifter::<Low, u8>::new();
    assert_eq!(i.status(), Some(Status::High));
}

#[test]
fn shift_wide_register() {
    let mut i = Shifter::<High, u16>::new();
    assert_eq!(i.status(), Some(Status::Low));
    assert_eq!(i.update(Status::High), None);
    assert_eq!(i.update(Status::Low), Some(Status::Low));
}

#[test]
fn shift_const_low_is_triggered() {
    let mut d = DbShfInt::with(6, || false);
    assert_eq!(d.try_is_triggered(), None);
    assert_eq!(d.is_triggered_or_unset(), false);
    assert_eq!(d.is_triggered_latest(), false);
    assert_eq!(d.try_is_triggered(), None);
    assert_eq!(d.is_triggered_latest(), false);
    assert_eq!(d.is_triggered_latest(), true);
    assert_eq!(d.is_triggered_latest(), true);
    assert_eq!(d.is_triggered_or_unset(), true);
    assert_eq!(d.try_is_triggered(), Some(true));
}

#[test]
fn shift_const_zero() {
    let mut d = DbShfInt::with(0, || false);
    assert_eq!(d.try_is_triggered(), Some(true));
    assert_eq!(d.is_triggered_or_unset(), true);
    assert_eq!(d.is_triggered_latest(), true);

    let mut d = DebouncedIntegrandShift::<High, _>::with(0, || false);
    assert_eq!(d.try_is_triggered(), Some(false));
    assert_eq!(d.is_triggered_or_unset(), false);
    assert_eq!(d.is_triggered_latest(), false);

    let mut d = DbShfInt::with(0, || true);
    assert_eq!(d.try_is_triggered(), Some(true));
    assert_eq!(d.is_triggered_or_unset(), true);
    assert_eq!(d.is_triggered_latest(), true);

    let mut d = DebouncedIntegrandShift::<High, _>::with(0, || true);
    assert_eq!(d.try_is_triggered(), Some(false));
    assert_eq!(d.is_triggered_or_unset(), false);
    assert_eq!(d.is_triggered_latest(), false);
}

#[test]
fn shift_generic_low_is_triggered() {
    let mut d = DebouncedSmall::<Low, _>::with(6, || false);
    assert_eq!(d.try_is_triggered(), None);
    assert_eq!(d.is_triggered_or_unset(), false);
    assert_eq!(d.is_triggered_latest(), false);
    assert_eq!(d.try_is_triggered(), None);
    assert_eq!(d.is_triggered_latest(), false);
    assert_eq!(d.is_triggered_latest(), true);
    assert_eq!(d.is_triggered_latest(), true);
    assert_eq!(d.is_triggered_or_unset(), true);
    assert_eq!(d.try_is_triggered(), Some(true));
}

#[test]
fn shift_generic_zero() {
    let mut d = DebouncedSmall::<Low, _>::with(0, || false);
    assert_eq!(d.try_is_triggered(), Some(true));
    assert_eq!(d.is_triggered_or_unset(), true);
    assert_eq!(d.is_triggered_latest(), true);

    let mut d = DebouncedSmall::<High, _>::with(0, || false);
    assert_eq!(d.try_is_triggered(), Some(false));
    assert_eq!(d.is_triggered_or_unset(), false);
    assert_eq!(d.is_triggered_latest(), false);

    let mut d = DebouncedSmall::<Low, _>::with(0, || true);
    assert_eq!(d.try_is_triggered(), Some(true));
    assert_eq!(d.is_triggered_or_unset(), true);
    assert_eq!(d.is_triggered_latest(), true);

    let mut d = DebouncedSmall::<High, _>::with(0, || true);
    assert_eq!(d.try_is_triggered(), Some(false));
    assert_eq!(d.is_triggered_or_unset(), false);
    assert_eq!(d.is_triggered_latest(), false);
}
