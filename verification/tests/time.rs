use virtual_sockets::relay::{Rate, Shaping};
use virtual_sockets::time::{Duration, Instant};

#[test]
fn durations_count_nanoseconds() {
    assert_eq!(Duration::from_nanos(7).as_nanos(), 7);
    assert_eq!(Duration::from_micros(3).as_nanos(), 3_000);
    assert_eq!(Duration::from_millis(50).as_nanos(), 50_000_000);
    assert_eq!(Duration::from_secs(1).as_nanos(), 1_000_000_000);
    assert_eq!(Duration::from_millis(50), Duration::from_micros(50_000));
}

#[test]
fn instants_add_up_without_overflow() {
    assert_eq!(Instant::zero().as_nanos(), 0);
    assert_eq!(Instant::from_nanos(5).after(7), 12);
    assert_eq!(Instant::from_nanos(u64::MAX).after(1), u64::MAX as u128 + 1);
    assert!(Instant::from_nanos(12).has_reached(12));
    assert!(!Instant::from_nanos(11).has_reached(12));
    assert!(!Instant::from_nanos(u64::MAX).has_reached(u64::MAX as u128 + 1));
}

#[test]
fn fixed_delay_ignores_the_size() {
    let shaping = Shaping::FixedDelay(Duration::from_millis(50));
    assert_eq!(shaping.delay(0), 50_000_000);
    assert_eq!(shaping.delay(13_000), 50_000_000);
}

#[test]
fn rate_keeps_its_bytes_per_second() {
    assert_eq!(Rate::new(10_000).bytes_per_second(), 10_000);
    assert_eq!(Rate::new(1).bytes_per_second(), 1);
    assert_eq!(Rate::new(u32::MAX).bytes_per_second(), u32::MAX);
    assert_eq!(Rate::new(3), Rate::new(3));
}

#[test]
fn throughput_delay_grows_with_the_size() {
    let shaping = Shaping::Throughput(Rate::new(10_000));
    assert_eq!(shaping.delay(0), 0);
    assert_eq!(shaping.delay(1), 100_000);
    assert_eq!(shaping.delay(13_000), 1_300_000_000);
}

#[test]
fn throughput_delay_of_the_largest_payload_fits() {
    let shaping = Shaping::Throughput(Rate::new(1));
    assert_eq!(shaping.delay(usize::MAX), usize::MAX as u128 * 1_000_000_000);
    let shaping = Shaping::Throughput(Rate::new(u32::MAX));
    assert_eq!(
        shaping.delay(usize::MAX),
        (usize::MAX as u128 * 1_000_000_000 + u32::MAX as u128 - 1) / u32::MAX as u128
    );
}

#[test]
fn rate_that_does_not_divide_a_second_is_never_exceeded() {
    // Three bytes at three bytes per second take a full second.
    let shaping = Shaping::Throughput(Rate::new(3));
    assert_eq!(shaping.delay(3), 1_000_000_000);
    // One byte takes a third of a second, rounded up.
    assert_eq!(shaping.delay(1), 333_333_334);
    assert_eq!(shaping.delay(2), 666_666_667);
}

#[test]
fn rate_above_a_byte_per_nanosecond_still_takes_time() {
    let shaping = Shaping::Throughput(Rate::new(2_000_000_000));
    assert_eq!(shaping.delay(1_000), 500);
    assert_eq!(shaping.delay(1), 1);
    assert_eq!(shaping.delay(0), 0);
}
