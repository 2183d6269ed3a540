use payme_backend::clock::nanos_from_parts;
use payme_backend::clock::Clock;
use payme_backend::clock::NANOS_PER_SEC;

#[test]
fn a_second_is_a_billion_nanoseconds() {
    assert_eq!(NANOS_PER_SEC, 1_000_000_000);
}

#[test]
fn parts_add_up_to_nanoseconds() {
    assert_eq!(nanos_from_parts(0, 0), 0);
    assert_eq!(nanos_from_parts(0, 999_999_999), 999_999_999);
    assert_eq!(nanos_from_parts(1, 0), 1_000_000_000);
    assert_eq!(nanos_from_parts(60, 5), 60_000_000_005);
    assert_eq!(nanos_from_parts(18_446_744_073, 709_551_615), u64::MAX);
}

#[test]
fn parts_beyond_the_range_are_held_at_the_maximum() {
    assert_eq!(nanos_from_parts(18_446_744_073, 709_551_616), u64::MAX);
    assert_eq!(nanos_from_parts(18_446_744_074, 0), u64::MAX);
    assert_eq!(nanos_from_parts(u64::MAX, u32::MAX), u64::MAX);
}

#[test]
fn clock_starts_near_zero_and_does_not_run_backwards() {
    let clock = Clock::start();
    let first = clock.now();
    let second = clock.now();
    assert!(first <= second);
    assert!(first < 3600 * NANOS_PER_SEC);
}
