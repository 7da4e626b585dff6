use debounce::Status;
use debounce::samples;

#[test]
fn inverses() {
    assert_eq!(Status::Low, Status::High.not());
    assert_eq!(Status::Low.not(), Status::High);
}

#[test]
fn into_bool() {
    assert_eq!(bool::from(Status::Low), false);
    assert_eq!(bool::from(Status::High), true);
}

#[test]
fn not_involution() {
    assert_eq!(Status::Low.not().not(), Status::Low);
    assert_eq!(Status::High.not().not(), Status::High);
}

#[test]
fn from_bool() {
    assert_eq!(Status::from(false), Status::Low);
    assert_eq!(Status::from(true), Status::High);
}

#[test]
fn samples_small() {
    let smpl: u8 = samples(1000, 5) as u8;
    assert_eq!(smpl, 5u8);
}

fn naive_sample_impl(freq: usize, hold_time_ms: usize) -> usize {
    freq * hold_time_ms / 1000
}

#[test]
fn samples_irregular() {
    assert_eq!(naive_sample_impl(250, 3), 0);
    assert_eq!(samples(250, 3), 1);

    assert_eq!(naive_sample_impl(250, 4), 1);
    assert_eq!(samples(250, 4), 1);

    assert_eq!(naive_sample_impl(250, 5), 1);
    assert_eq!(samples(250, 5), 2);
}

#[test]
fn samples_edges() {
    assert_eq!(samples(0, 1000), 0);
    assert_eq!(samples(1000, 0), 0);
    assert_eq!(samples(1, 1), 1);
    assert_eq!(samples(1_000_000, 1000), 1_000_000);
}
